//! Importing subtitles: the dialogue text of SubRip (.srt) and Advanced
//! SubStation Alpha (.ass/.ssa) files, grouped into paragraphs.
use vstd::prelude::*;
use crate::text::{
    lines, split_lines, trim, trim_str, starts_with, str_starts_with, join, join_strings,
    strings_view, replaced, replace_str, to_chars, string_of_range, lemma_trim_is_infix,
};

verus! {

/// Whether a regular expression compiles (`regex::Regex::new` succeeds).
pub uninterp spec fn regex_valid(pattern: Seq<char>) -> bool;

/// Whether the compiled `pattern` matches somewhere in `text` (`Regex::is_match`).
pub uninterp spec fn regex_matches(pattern: Seq<char>, text: Seq<char>) -> bool;

/// `text` with every match of the compiled `pattern` replaced by `rep` (`Regex::replace_all`).
pub uninterp spec fn regex_replaced(pattern: Seq<char>, text: Seq<char>, rep: Seq<char>) -> Seq<char>;

/// Calls `regex::Regex::new`; whether it succeeds is named [`regex_valid`].
#[verifier::external_body]
pub(crate) fn regex_compiles(pattern: &str) -> (r: bool)
    ensures
        r == regex_valid(pattern@),
{
    regex::Regex::new(pattern).is_ok()
}

/// Compiles `pattern` and calls `Regex::is_match` on `text`; the result is
/// named [`regex_matches`].
#[verifier::external_body]
fn regex_is_match(pattern: &str, text: &str) -> (r: bool)
    requires
        regex_valid(pattern@),
    ensures
        r == regex_matches(pattern@, text@),
{
    match regex::Regex::new(pattern) {
        Ok(re) => re.is_match(text),
        Err(_) => false,
    }
}

/// An HTML tag spans `s[i..=j]`: `<`, at least one character other than
/// `>`, then `>` (a match of [`HTML_TAG`]).
pub open spec fn html_tag_at(s: Seq<char>, i: int, j: int) -> bool {
    &&& 0 <= i
    &&& i + 1 < j < s.len()
    &&& s[i] == '<'
    &&& s[j] == '>'
    &&& forall|k: int| i < k < j ==> s[k] != '>'
}

/// Some part of `s` matches [`HTML_TAG`].
pub open spec fn has_html_tag(s: Seq<char>) -> bool {
    exists|i: int, j: int| html_tag_at(s, i, j)
}

/// Compiles `pattern` and calls `Regex::replace_all` on `text` with `rep`;
/// the result is named [`regex_replaced`]. `replace_all` removes the
/// leftmost non-overlapping matches one after another, so with the pattern
/// [`HTML_TAG`] and an empty replacement no tag is left: a `<` that no match
/// took had no match starting at it, so it was followed directly by `>`
/// (which no match can take either) or by no `>` at all, and both stay so.
/// That much is stated of that pattern.
#[verifier::external_body]
pub(crate) fn regex_replace_all(pattern: &str, text: &str, rep: &str) -> (r: String)
    requires
        regex_valid(pattern@),
    ensures
        r@ == regex_replaced(pattern@, text@, rep@),
        pattern@ == HTML_TAG@ && rep@.len() == 0 ==> !has_html_tag(r@),
{
    match regex::Regex::new(pattern) {
        Ok(re) => re.replace_all(text, rep).into_owned(),
        Err(_) => text.to_string(),
    }
}

/// A SubRip timing line such as `00:00:01,000 --> 00:00:03,000`.
pub const SRT_TIMING: &'static str = r"^\d{2}:\d{2}:\d{2}[,\.]\d{3}\s*-->\s*\d{2}:\d{2}:\d{2}[,\.]\d{3}";

/// A SubRip block number.
pub const SRT_INDEX: &'static str = r"^\d+$";

/// An HTML tag such as `<i>` or `</font>`.
pub const HTML_TAG: &'static str = r"<[^>]+>";

/// An ASS style override such as `{\i1}` or `{\pos(1,2)}`.
pub const ASS_STYLE_TAG: &'static str = r"\{[^}]*\}";

// ─── SubRip ─────────────────────────────────────────────────────────

/// Where reading a SubRip file stands after some lines: the finished
/// paragraphs, the lines of the paragraph being filled, how many text lines
/// were taken, and whether the lines are inside a block's text.
pub struct SrtState {
    pub paragraphs: Seq<Seq<Seq<char>>>,
    pub group: Seq<Seq<char>>,
    pub count: nat,
    pub in_text: bool,
}

/// One line of a SubRip file: a blank line ends a block's text; a block
/// number outside text and a timing line are skipped (the timing line starts
/// the text); text lines lose their HTML tags and, when not blank, join the
/// current paragraph, which is closed every ten text lines.
pub open spec fn srt_step(st: SrtState, line: Seq<char>) -> SrtState {
    let t = trim(line);
    if t.len() == 0 {
        SrtState { in_text: false, ..st }
    } else if regex_matches(SRT_INDEX@, t) && !st.in_text {
        st
    } else if regex_matches(SRT_TIMING@, t) {
        SrtState { in_text: true, ..st }
    } else if st.in_text {
        let clean = trim(regex_replaced(HTML_TAG@, t, seq![]));
        if clean.len() == 0 {
            st
        } else {
            let g = st.group.push(clean);
            let c = st.count + 1;
            if c % 10 == 0 {
                SrtState { paragraphs: st.paragraphs.push(g), group: seq![], count: c, ..st }
            } else {
                SrtState { group: g, count: c, ..st }
            }
        }
    } else {
        st
    }
}

pub open spec fn srt_state(ls: Seq<Seq<char>>) -> SrtState
    decreases ls.len(),
{
    if ls.len() == 0 {
        SrtState { paragraphs: seq![], group: seq![], count: 0, in_text: false }
    } else {
        srt_step(srt_state(ls.drop_last()), ls.last())
    }
}

/// Paragraphs joined by a blank line, the lines of each by a line break.
pub open spec fn paragraphs_text(ps: Seq<Seq<Seq<char>>>) -> Seq<char> {
    join(ps.map_values(|g: Seq<Seq<char>>| join(g, "\n"@)), "\n\n"@)
}

/// The text of a SubRip file.
pub open spec fn srt_text(content: Seq<char>) -> Seq<char> {
    let st = srt_state(lines(content));
    paragraphs_text(
        if st.group.len() > 0 {
            st.paragraphs.push(st.group)
        } else {
            st.paragraphs
        },
    )
}

/// No line gathered so far holds an HTML tag.
pub open spec fn srt_lines_tag_free(st: SrtState) -> bool {
    &&& forall|p: int, k: int|
        0 <= p < st.paragraphs.len() && 0 <= k < st.paragraphs[p].len() ==> !has_html_tag(
            #[trigger] st.paragraphs[p][k],
        )
    &&& forall|k: int| 0 <= k < st.group.len() ==> !has_html_tag(#[trigger] st.group[k])
}

/// `line` is a text line of a block: [`srt_step`] strips it of its tags.
pub open spec fn srt_takes_text(st: SrtState, line: Seq<char>) -> bool {
    let t = trim(line);
    &&& t.len() > 0
    &&& !(regex_matches(SRT_INDEX@, t) && !st.in_text)
    &&& !regex_matches(SRT_TIMING@, t)
    &&& st.in_text
}

proof fn lemma_trim_keeps_no_tag(s: Seq<char>)
    requires
        !has_html_tag(s),
    ensures
        !has_html_tag(trim(s)),
{
    let t = trim(s);
    lemma_trim_is_infix(s);
    let a = choose|a: int| 0 <= a && a + t.len() <= s.len() && #[trigger] s.subrange(a, a + t.len()) == t;
    if has_html_tag(t) {
        let (i, j) = choose|i: int, j: int| html_tag_at(t, i, j);
        assert forall|k: int| a + i < k < a + j implies s[k] != '>' by {
            assert(s[k] == t[k - a]);
        }
        assert(s[a + i] == t[i]);
        assert(s[a + j] == t[j]);
        assert(html_tag_at(s, a + i, a + j));
    }
}

proof fn lemma_srt_step_tag_free(st: SrtState, line: Seq<char>)
    requires
        srt_lines_tag_free(st),
        srt_takes_text(st, line) ==> !has_html_tag(regex_replaced(HTML_TAG@, trim(line), seq![])),
    ensures
        srt_lines_tag_free(srt_step(st, line)),
{
    if srt_takes_text(st, line) {
        let t = trim(line);
        let clean = trim(regex_replaced(HTML_TAG@, t, seq![]));
        lemma_trim_keeps_no_tag(regex_replaced(HTML_TAG@, t, seq![]));
        if clean.len() > 0 {
            let g = st.group.push(clean);
            assert forall|k: int| 0 <= k < g.len() implies !has_html_tag(#[trigger] g[k]) by {
                if k < st.group.len() {
                    assert(g[k] == st.group[k]);
                }
            }
            let ps = st.paragraphs.push(g);
            assert forall|p: int, k: int| 0 <= p < ps.len() && 0 <= k < ps[p].len() implies !has_html_tag(
                #[trigger] ps[p][k],
            ) by {
                if p < st.paragraphs.len() {
                    assert(ps[p] == st.paragraphs[p]);
                }
            }
        }
    }
}

/// No line that a SubRip file yields holds an HTML tag, given what
/// `regex_replace_all` states of removing the matches of [`HTML_TAG`]:
/// that none is left.
pub proof fn law_srt_lines_hold_no_html_tag(ls: Seq<Seq<char>>)
    requires
        forall|t: Seq<char>| !has_html_tag(#[trigger] regex_replaced(HTML_TAG@, t, seq![])),
    ensures
        srt_lines_tag_free(srt_state(ls)),
    decreases ls.len(),
{
    if ls.len() > 0 {
        law_srt_lines_hold_no_html_tag(ls.drop_last());
        lemma_srt_step_tag_free(srt_state(ls.drop_last()), ls.last());
    }
}

/// Every finished paragraph holds ten lines, the one being filled fewer,
/// and the count is the number of lines taken.
pub open spec fn srt_grouped(st: SrtState) -> bool {
    &&& forall|p: int| 0 <= p < st.paragraphs.len() ==> (#[trigger] st.paragraphs[p]).len() == 10
    &&& st.group.len() < 10
    &&& st.count == 10 * st.paragraphs.len() + st.group.len()
}

/// A SubRip file's text lines go ten to a paragraph: every paragraph but the
/// last holds exactly ten lines, and the last (the lines left over) fewer.
pub proof fn law_srt_paragraphs_hold_ten_lines(ls: Seq<Seq<char>>)
    ensures
        srt_grouped(srt_state(ls)),
    decreases ls.len(),
{
    if ls.len() > 0 {
        law_srt_paragraphs_hold_ten_lines(ls.drop_last());
        let st = srt_state(ls.drop_last());
        let line = ls.last();
        if srt_takes_text(st, line) {
            let clean = trim(regex_replaced(HTML_TAG@, trim(line), seq![]));
            if clean.len() > 0 {
                let g = st.group.push(clean);
                let c = st.count + 1;
                let np = st.paragraphs.len();
                assert(c == 10 * np + g.len());
                assert(c % 10 == 0 <==> g.len() == 10) by (nonlinear_arith)
                    requires
                        c == 10 * np + g.len(),
                        1 <= g.len() <= 10,
                ;
                if c % 10 == 0 {
                    let ps = st.paragraphs.push(g);
                    assert forall|p: int| 0 <= p < ps.len() implies (#[trigger] ps[p]).len() == 10 by {
                        if p < np {
                            assert(ps[p] == st.paragraphs[p]);
                        }
                    }
                }
            }
        }
    }
}

pub open spec fn subtitle_patterns_valid() -> bool {
    regex_valid(SRT_TIMING@) && regex_valid(SRT_INDEX@) && regex_valid(HTML_TAG@) && regex_valid(
        ASS_STYLE_TAG@,
    )
}

fn patterns_compile() -> (r: bool)
    ensures
        r == subtitle_patterns_valid(),
{
    regex_compiles(SRT_TIMING) && regex_compiles(SRT_INDEX) && regex_compiles(HTML_TAG)
        && regex_compiles(ASS_STYLE_TAG)
}

pub open spec fn groups_view(v: Seq<Vec<String>>) -> Seq<Seq<Seq<char>>> {
    v.map_values(|g: Vec<String>| strings_view(g@))
}

fn paragraphs_join(ps: &Vec<Vec<String>>) -> (r: String)
    ensures
        r@ == paragraphs_text(groups_view(ps@)),
{
    let mut texts: Vec<String> = Vec::new();
    let mut i: usize = 0;
    while i < ps.len()
        invariant
            i <= ps@.len(),
            strings_view(texts@) == groups_view(ps@).take(i as int).map_values(
                |g: Seq<Seq<char>>| join(g, "\n"@),
            ),
        decreases ps.len() - i,
    {
        let t = join_strings(&ps[i], "\n");
        let ghost prev = texts@;
        texts.push(t);
        i += 1;
        assert(strings_view(texts@) =~= groups_view(ps@).take(i as int).map_values(
            |g: Seq<Seq<char>>| join(g, "\n"@),
        )) by {
            assert(strings_view(texts@) == strings_view(prev).push(t@));
        }
    }
    assert(groups_view(ps@).take(ps@.len() as int) == groups_view(ps@));
    join_strings(&texts, "\n\n")
}

/// Parse a SubRip subtitle file and extract its text, ten subtitle lines
/// to a paragraph. Fails only when one of the subtitle patterns does not
/// compile.
pub fn parse_srt(content: &str) -> (r: Result<String, String>)
    ensures
        r is Ok <==> subtitle_patterns_valid(),
        r matches Ok(t) ==> t@ == srt_text(content@),
        r is Ok ==> srt_lines_tag_free(srt_state(lines(content@))),
{
    if !patterns_compile() {
        return Err(String::from_str("invalid subtitle pattern"));
    }
    let ls = split_lines(content);
    let ghost lv = strings_view(ls@);
    let mut paragraphs: Vec<Vec<String>> = Vec::new();
    let mut group: Vec<String> = Vec::new();
    let mut count: usize = 0;
    let mut in_text = false;
    let mut i: usize = 0;
    assert(lv.take(0) =~= Seq::<Seq<char>>::empty());
    assert(groups_view(paragraphs@) =~= Seq::<Seq<Seq<char>>>::empty());
    assert(strings_view(group@) =~= Seq::<Seq<char>>::empty());
    proof {
        reveal_strlit("");
        assert(""@ =~= Seq::<char>::empty());
    }
    while i < ls.len()
        invariant
            i <= ls@.len(),
            lv == strings_view(ls@),
            lv == lines(content@),
            count <= i,
            subtitle_patterns_valid(),
            ""@ == Seq::<char>::empty(),
            srt_state(lv.take(i as int)) == (SrtState {
                paragraphs: groups_view(paragraphs@),
                group: strings_view(group@),
                count: count as nat,
                in_text,
            }),
            srt_lines_tag_free(srt_state(lv.take(i as int))),
        decreases ls.len() - i,
    {
        assert(lv.take(i + 1).drop_last() == lv.take(i as int));
        assert(lv.take(i + 1).last() == ls@[i as int]@);
        let ghost st0 = srt_state(lv.take(i as int));
        let ghost line = ls@[i as int]@;
        let t = trim_str(ls[i].as_str());
        if t.as_str().is_empty() {
            in_text = false;
            proof { lemma_srt_step_tag_free(st0, line); }
        } else if regex_is_match(SRT_INDEX, t.as_str()) && !in_text {
            proof { lemma_srt_step_tag_free(st0, line); }
        } else if regex_is_match(SRT_TIMING, t.as_str()) {
            in_text = true;
            proof { lemma_srt_step_tag_free(st0, line); }
        } else if in_text {
            let stripped = regex_replace_all(HTML_TAG, t.as_str(), "");
            let clean = trim_str(stripped.as_str());
            proof { lemma_srt_step_tag_free(st0, line); }
            if !clean.as_str().is_empty() {
                let ghost gprev = group@;
                group.push(clean);
                assert(strings_view(group@) == strings_view(gprev).push(clean@));
                count = count + 1;
                if count % 10 == 0 {
                    let mut done: Vec<String> = Vec::new();
                    std::mem::swap(&mut done, &mut group);
                    let ghost pprev = paragraphs@;
                    paragraphs.push(done);
                    assert(groups_view(paragraphs@) == groups_view(pprev).push(strings_view(done@)));
                    assert(strings_view(group@) == Seq::<Seq<char>>::empty());
                }
            }
        } else {
            proof { lemma_srt_step_tag_free(st0, line); }
        }
        i += 1;
    }
    assert(lv.take(ls@.len() as int) == lv);
    if group.len() > 0 {
        let ghost pprev = paragraphs@;
        let ghost g = strings_view(group@);
        paragraphs.push(group);
        assert(groups_view(paragraphs@) == groups_view(pprev).push(g));
    }
    Ok(paragraphs_join(&paragraphs))
}

// ─── Advanced SubStation Alpha ──────────────────────────────────────

/// Where reading an ASS file stands after some lines: the dialogue lines
/// taken, whether the [Events] section has begun, and whether a later
/// section ended it.
pub struct AssState {
    pub lines: Seq<Seq<char>>,
    pub in_events: bool,
    pub done: bool,
}

/// The position of the first `,` in `s` at or after `from`, or `s.len()`.
pub open spec fn first_comma(s: Seq<char>, from: int) -> int
    decreases s.len() - from,
{
    if from < 0 || from >= s.len() {
        s.len() as int
    } else if s[from] == ',' {
        from
    } else {
        first_comma(s, from + 1)
    }
}

/// The position just past the `n`th comma at or after `from`, if there is one.
pub open spec fn past_commas(s: Seq<char>, from: int, n: nat) -> Option<int>
    decreases n,
{
    if n == 0 {
        Some(from)
    } else {
        let k = first_comma(s, from);
        if k >= s.len() {
            None
        } else {
            past_commas(s, k + 1, (n - 1) as nat)
        }
    }
}

/// The text field of a dialogue line: everything after its ninth comma.
pub open spec fn dialogue_field(t: Seq<char>) -> Option<Seq<char>> {
    match past_commas(t, 0, 9) {
        Some(e) => Some(t.skip(e)),
        None => None,
    }
}

/// The text of a dialogue field: style overrides removed, `\N` and `\n`
/// turned into line breaks, trimmed.
pub open spec fn dialogue_text(field: Seq<char>) -> Seq<char> {
    trim(
        replaced(
            replaced(regex_replaced(ASS_STYLE_TAG@, trim(field), seq![]), "\\N"@, "\n"@),
            "\\n"@,
            "\n"@,
        ),
    )
}

/// One line of an ASS file: the [Events] header starts the dialogue; any
/// later section header ends it; inside it, dialogue lines (not comments)
/// with a text field give their non-blank text.
pub open spec fn ass_step(st: AssState, line: Seq<char>) -> AssState {
    let t = trim(line);
    if st.done {
        st
    } else if starts_with(t, "[Events]"@) {
        AssState { in_events: true, ..st }
    } else if starts_with(t, "["@) && st.in_events {
        AssState { done: true, ..st }
    } else if !st.in_events {
        st
    } else if starts_with(t, "Dialogue:"@) || starts_with(t, "Comment:"@) {
        if starts_with(t, "Comment:"@) {
            st
        } else {
            match dialogue_field(t) {
                Some(f) => if dialogue_text(f).len() > 0 {
                    AssState { lines: st.lines.push(dialogue_text(f)), ..st }
                } else {
                    st
                },
                None => st,
            }
        }
    } else {
        st
    }
}

pub open spec fn ass_state(ls: Seq<Seq<char>>) -> AssState
    decreases ls.len(),
{
    if ls.len() == 0 {
        AssState { lines: seq![], in_events: false, done: false }
    } else {
        ass_step(ass_state(ls.drop_last()), ls.last())
    }
}

/// Lines ten to a paragraph, each paragraph's lines joined by a line break.
pub open spec fn chunked(ls: Seq<Seq<char>>) -> Seq<Seq<char>>
    decreases ls.len(),
{
    if ls.len() == 0 {
        seq![]
    } else if ls.len() <= 10 {
        seq![join(ls, "\n"@)]
    } else {
        seq![join(ls.take(10), "\n"@)] + chunked(ls.skip(10))
    }
}

/// The text of an ASS file.
pub open spec fn ass_text(content: Seq<char>) -> Seq<char> {
    join(chunked(ass_state(lines(content)).lines), "\n\n"@)
}

fn first_comma_exec(v: &Vec<char>, from: usize) -> (k: usize)
    requires
        from <= v@.len(),
    ensures
        k as int == first_comma(v@, from as int),
        from <= k <= v@.len(),
{
    let mut k = from;
    while k < v.len() && v[k] != ','
        invariant
            from <= k <= v@.len(),
            first_comma(v@, from as int) == first_comma(v@, k as int),
        decreases v.len() - k,
    {
        k += 1;
    }
    k
}

fn dialogue_field_exec(t: &str) -> (r: Option<String>)
    ensures
        match r {
            Some(f) => dialogue_field(t@) == Some(f@),
            None => dialogue_field(t@) is None,
        },
{
    let v = to_chars(t);
    let mut pos: usize = 0;
    let mut n: usize = 0;
    while n < 9
        invariant
            n <= 9,
            pos <= v@.len(),
            v@ == t@,
            past_commas(v@, 0, 9) == past_commas(v@, pos as int, (9 - n) as nat),
        decreases 9 - n,
    {
        let k = first_comma_exec(&v, pos);
        if k >= v.len() {
            return None;
        }
        pos = k + 1;
        n += 1;
    }
    let f = string_of_range(&v, pos, v.len());
    assert(v@.subrange(pos as int, v@.len() as int) == v@.skip(pos as int));
    Some(f)
}

fn dialogue_text_exec(field: &str) -> (r: String)
    requires
        subtitle_patterns_valid(),
    ensures
        r@ == dialogue_text(field@),
{
    proof {
        reveal_strlit("\\N");
        reveal_strlit("\\n");
        reveal_strlit("");
        assert(""@ =~= Seq::<char>::empty());
    }
    let f = trim_str(field);
    let no_style = regex_replace_all(ASS_STYLE_TAG, f.as_str(), "");
    let a = replace_str(no_style.as_str(), "\\N", "\n");
    let b = replace_str(a.as_str(), "\\n", "\n");
    trim_str(b.as_str())
}

fn lines_join(ls: &Vec<String>, from: usize, to: usize) -> (r: String)
    requires
        from <= to <= ls@.len(),
    ensures
        r@ == join(strings_view(ls@).subrange(from as int, to as int), "\n"@),
{
    let mut part: Vec<String> = Vec::new();
    let mut i = from;
    while i < to
        invariant
            from <= i <= to <= ls@.len(),
            strings_view(part@) == strings_view(ls@).subrange(from as int, i as int),
        decreases to - i,
    {
        let ghost prev = strings_view(part@);
        let item = ls[i].clone();
        part.push(item);
        assert(strings_view(part@) == prev.push(item@));
        i += 1;
        assert(strings_view(part@) =~= strings_view(ls@).subrange(from as int, i as int));
    }
    join_strings(&part, "\n")
}

fn chunk_exec(ls: &Vec<String>) -> (r: Vec<String>)
    ensures
        strings_view(r@) == chunked(strings_view(ls@)),
{
    let ghost all = strings_view(ls@);
    let mut out: Vec<String> = Vec::new();
    let mut i: usize = 0;
    assert(all.skip(0) == all);
    assert(strings_view(out@) =~= Seq::<Seq<char>>::empty());
    while i < ls.len()
        invariant
            i <= ls@.len(),
            all == strings_view(ls@),
            chunked(all) == strings_view(out@) + chunked(all.skip(i as int)),
        decreases ls.len() - i,
    {
        let ghost rest = all.skip(i as int);
        if ls.len() - i <= 10 {
            let t = lines_join(ls, i, ls.len());
            assert(all.subrange(i as int, ls@.len() as int) == rest);
            let ghost prev = strings_view(out@);
            out.push(t);
            assert(strings_view(out@) == prev.push(t@));
            assert(chunked(rest) == seq![join(rest, "\n"@)]);
            assert(chunked(all.skip(ls@.len() as int)) == Seq::<Seq<char>>::empty());
            i = ls.len();
        } else {
            let t = lines_join(ls, i, i + 10);
            assert(all.subrange(i as int, i + 10) == rest.take(10));
            assert(rest.skip(10) == all.skip(i + 10));
            let ghost prev = strings_view(out@);
            out.push(t);
            assert(strings_view(out@) == prev.push(t@));
            i = i + 10;
        }
    }
    assert(all.skip(i as int) == Seq::<Seq<char>>::empty());
    out
}

/// Parse an ASS/SSA subtitle file and extract its dialogue text, ten lines
/// to a paragraph. Fails only when one of the subtitle patterns does not
/// compile.
pub fn parse_ass(content: &str) -> (r: Result<String, String>)
    ensures
        r is Ok <==> subtitle_patterns_valid(),
        r matches Ok(t) ==> t@ == ass_text(content@),
{
    if !patterns_compile() {
        return Err(String::from_str("invalid subtitle pattern"));
    }
    let ls = split_lines(content);
    let ghost lv = strings_view(ls@);
    let mut out: Vec<String> = Vec::new();
    let mut in_events = false;
    let mut i: usize = 0;
    assert(lv.take(0) =~= Seq::<Seq<char>>::empty());
    assert(strings_view(out@) =~= Seq::<Seq<char>>::empty());
    if ls.len() == 0 {
        assert(lv.take(0) =~= lv);
    }
    while i < ls.len()
        invariant_except_break
            i <= ls@.len(),
            lv == strings_view(ls@),
            subtitle_patterns_valid(),
            ass_state(lv.take(i as int)) == (AssState { lines: strings_view(out@), in_events, done: false }),
            i == ls@.len() ==> lv.take(i as int) == lv,
        ensures
            ass_state(lv).lines == strings_view(out@),
        decreases ls.len() - i,
    {
        assert(lv.take(i + 1).drop_last() == lv.take(i as int));
        assert(lv.take(i + 1).last() == ls@[i as int]@);
        let t = trim_str(ls[i].as_str());
        let ts = t.as_str();
        if str_starts_with(ts, "[Events]") {
            in_events = true;
        } else if str_starts_with(ts, "[") && in_events {
            proof {
                lemma_ass_done_stays(lv, i as int + 1);
                assert(lv.take(lv.len() as int) == lv);
            }
            break;
        } else if !in_events {
        } else if str_starts_with(ts, "Dialogue:") || str_starts_with(ts, "Comment:") {
            if !str_starts_with(ts, "Comment:") {
                match dialogue_field_exec(ts) {
                    Some(f) => {
                        let clean = dialogue_text_exec(f.as_str());
                        if !clean.as_str().is_empty() {
                            let ghost prev = strings_view(out@);
                            out.push(clean);
                            assert(strings_view(out@) == prev.push(clean@));
                        }
                    },
                    None => {},
                }
            }
        }
        i += 1;
        if i == ls.len() {
            assert(lv.take(i as int) == lv);
        }
    }
    let chunks = chunk_exec(&out);
    Ok(join_strings(&chunks, "\n\n"))
}

proof fn lemma_ass_done_stays(ls: Seq<Seq<char>>, n: int)
    requires
        0 <= n <= ls.len(),
        ass_state(ls.take(n)).done,
    ensures
        ass_state(ls) == ass_state(ls.take(n)),
    decreases ls.len() - n,
{
    if n < ls.len() {
        assert(ls.take(n + 1).drop_last() == ls.take(n));
        lemma_ass_done_stays(ls, n + 1);
    } else {
        assert(ls.take(n) == ls);
    }
}

} // verus!
