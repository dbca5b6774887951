//! Syosetu (ncode.syosetu.com) novels: their metadata records, the reading
//! of a novel code from what the user types, and what is read from the
//! novel's table-of-contents and chapter pages.
use vstd::prelude::*;
use crate::text::{
    trim, trim_chars, trim_end_slashes, trim_end_slashes_chars, to_chars, string_of, string_of_range,
    find_from, find_from_exec, lemma_find_from, starts_with, lowercase_of, to_lowercase,
    alphanumeric_char, is_alphanumeric, push_str, occurs_at, lines, split_lines, trim_str, replaced,
    replace_str, decimal_digits, push_decimal, strings_view,
};
use crate::html::{
    first_element, first_of, selected_elements, select_elements, selected_inner_html,
    select_inner_html, infos_view, texts_of, trimmed_nonblank_texts,
};
use crate::tokenizer::nonblank_trimmed;
use crate::import::web::first_trimmed_text;
use crate::import::subtitle::{HTML_TAG, regex_valid, regex_replaced, regex_compiles, regex_replace_all};

verus! {

/// Metadata for a Syosetu novel.
#[derive(Debug, Clone)]
pub struct SyosetuNovel {
    pub ncode: String,
    pub title: String,
    pub author: String,
    pub total_chapters: usize,
    pub chapters: Vec<SyosetuChapter>,
}

/// A single chapter from a Syosetu novel.
#[derive(Debug, Clone)]
pub struct SyosetuChapter {
    pub number: usize,
    pub title: String,
    pub text_id: Option<i64>,
    pub word_count: usize,
}

pub open spec fn all_alphanumeric(s: Seq<char>) -> bool {
    forall|i: int| 0 <= i < s.len() ==> alphanumeric_char(#[trigger] s[i])
}

/// The position of the first `/` in `s` at or after `from`, or `s.len()`.
pub open spec fn first_slash(s: Seq<char>, from: int) -> int
    decreases s.len() - from,
{
    if from < 0 || from >= s.len() {
        s.len() as int
    } else if s[from] == '/' {
        from
    } else {
        first_slash(s, from + 1)
    }
}

proof fn lemma_first_slash(s: Seq<char>, from: int)
    requires
        0 <= from <= s.len(),
    ensures
        from <= first_slash(s, from) <= s.len(),
    decreases s.len() - from,
{
    if from < s.len() && s[from] != '/' {
        lemma_first_slash(s, from + 1);
    }
}

/// What the user typed, trimmed and without trailing slashes.
pub open spec fn ncode_input(input: Seq<char>) -> Seq<char> {
    trim_end_slashes(trim(input))
}

/// The novel code in `input`: the input itself, lowercased, when it is
/// alphanumeric and starts with "n"; else the first path segment after
/// `domain` in it, lowercased, when that is not empty.
pub open spec fn ncode_of(input: Seq<char>, domain: Seq<char>) -> Option<Seq<char>> {
    let t = ncode_input(input);
    if all_alphanumeric(t) && starts_with(lowercase_of(t), "n"@) {
        Some(lowercase_of(t))
    } else {
        let k = find_from(t, domain, 0);
        if k < t.len() {
            let after = t.skip(k + domain.len());
            let code = after.take(first_slash(after, 0));
            if code.len() > 0 {
                Some(lowercase_of(code))
            } else {
                None
            }
        } else {
            None
        }
    }
}

/// The novel code in `input` for a site whose novel URLs contain `domain`,
/// or the error naming the input.
pub fn ncode_from(input: &str, domain: &str) -> (r: Result<String, String>)
    requires
        domain@.len() > 0,
    ensures
        match r {
            Ok(code) => ncode_of(input@, domain@) == Some(code@),
            Err(e) => ncode_of(input@, domain@) is None && e@ == "Could not parse ncode from: "@
                + ncode_input(input@),
        },
{
    proof {
        reveal_strlit("n");
    }
    let raw = to_chars(input);
    let trimmed = trim_chars(&raw);
    let t = trim_end_slashes_chars(&trimmed);
    let ts = string_of(&t);
    let mut all_alnum = true;
    let mut i: usize = 0;
    while i < t.len()
        invariant
            i <= t@.len(),
            all_alnum == forall|j: int| 0 <= j < i ==> alphanumeric_char(#[trigger] t@[j]),
        decreases t.len() - i,
    {
        if !is_alphanumeric(t[i]) {
            all_alnum = false;
        }
        i += 1;
    }
    if all_alnum {
        let lower = to_lowercase(ts.as_str());
        let lv = to_chars(lower.as_str());
        let n = to_chars("n");
        if lv.len() >= 1 && crate::text::chars_occur_at(&lv, &n, 0) {
            return Ok(lower);
        }
    }
    let dv = to_chars(domain);
    let k = find_from_exec(&t, &dv, 0);
    proof {
        lemma_find_from(t@, dv@, 0);
    }
    if k < t.len() {
        let start = k + dv.len();
        let mut e = start;
        let ghost after = t@.skip(start as int);
        while e < t.len() && t[e] != '/'
            invariant
                start <= e <= t@.len(),
                after == t@.skip(start as int),
                first_slash(after, 0) == first_slash(after, e - start),
            decreases t.len() - e,
        {
            assert(after[e - start] == t@[e as int]);
            e += 1;
        }
        proof {
            lemma_first_slash(after, 0);
            if e < t.len() {
                assert(after[e - start] == t@[e as int]);
            }
        }
        if e > start {
            let code = string_of_range(&t, start, e);
            assert(t@.subrange(start as int, e as int) == after.take(e - start));
            return Ok(to_lowercase(code.as_str()));
        }
        assert(after.take(first_slash(after, 0)).len() == 0);
    }
    let mut msg = String::from_str("Could not parse ncode from: ");
    push_str(&mut msg, ts.as_str());
    Err(msg)
}

/// The novel code of a Syosetu input: as [`ncode_of`] finds it after
/// `ncode.syosetu.com/`, else after the common misspelling
/// `ncode.syosetsu.com/`.
pub open spec fn syosetu_ncode_of(input: Seq<char>) -> Option<Seq<char>> {
    match ncode_of(input, "ncode.syosetu.com/"@) {
        Some(c) => Some(c),
        None => ncode_of(input, "ncode.syosetsu.com/"@),
    }
}

/// Extract the ncode from a Syosetu URL or a bare ncode.
/// Handles input like:
///   https://ncode.syosetu.com/n1234ab/
///   https://ncode.syosetu.com/n1234ab/1/
///   https://ncode.syosetsu.com/n1234ab/ (a common misspelling)
///   n1234ab
pub fn parse_ncode(input: &str) -> (r: Result<String, String>)
    ensures
        match r {
            Ok(code) => syosetu_ncode_of(input@) == Some(code@),
            Err(e) => syosetu_ncode_of(input@) is None && e@ == "Could not parse ncode from: "@ + ncode_input(
                input@,
            ),
        },
{
    proof {
        reveal_strlit("ncode.syosetu.com/");
        reveal_strlit("ncode.syosetsu.com/");
    }
    match ncode_from(input, "ncode.syosetu.com/") {
        Ok(code) => Ok(code),
        Err(_) => ncode_from(input, "ncode.syosetsu.com/"),
    }
}


// ─── Chapter pages ──────────────────────────────────────────────────

/// Line breaks for `<br>` tags and paragraph ends; paragraph starts dropped.
pub open spec fn breaks_marked(s: Seq<char>) -> Seq<char> {
    replaced(
        replaced(
            replaced(replaced(replaced(s, "<br>"@, "\n"@), "<br/>"@, "\n"@), "<br />"@, "\n"@),
            "</p>"@,
            "\n"@,
        ),
        "<p>"@,
        ""@,
    )
}

/// The HTML entities `&lt;`, `&gt;`, `&amp;`, `&quot;`, `&#39;` and `&nbsp;`
/// decoded, in that order.
pub open spec fn entities_decoded(s: Seq<char>) -> Seq<char> {
    replaced(
        replaced(
            replaced(
                replaced(replaced(replaced(s, "&lt;"@, "<"@), "&gt;"@, ">"@), "&amp;"@, "&"@),
                "&quot;"@,
                "\""@,
            ),
            "&#39;"@,
            "'"@,
        ),
        "&nbsp;"@,
        " "@,
    )
}

/// The lines laid out again: each non-blank line trimmed and ended by a
/// line break, a run of blank lines after some text kept as one blank line;
/// with whether the last line seen was blank.
pub open spec fn folded_lines(ls: Seq<Seq<char>>) -> (Seq<char>, bool)
    decreases ls.len(),
{
    if ls.len() == 0 {
        (seq![], false)
    } else {
        let (r, prev_blank) = folded_lines(ls.drop_last());
        let t = trim(ls.last());
        if t.len() == 0 {
            if !prev_blank && r.len() > 0 {
                (r.push('\n'), true)
            } else {
                (r, prev_blank)
            }
        } else {
            (
                (if prev_blank {
                    r.push('\n')
                } else {
                    r
                }) + t.push('\n'),
                false,
            )
        }
    }
}

/// The text of a novel element's inner HTML: line breaks for `<br>` and
/// paragraphs, other tags stripped, entities decoded, blank lines folded,
/// trimmed.
pub open spec fn novel_text_of(inner: Seq<char>) -> Seq<char> {
    trim(folded_lines(lines(entities_decoded(regex_replaced(HTML_TAG@, breaks_marked(inner), ""@)))).0)
}

fn novel_text(inner_html: &str) -> (r: String)
    requires
        regex_valid(HTML_TAG@),
    ensures
        r@ == novel_text_of(inner_html@),
{
    proof {
        reveal_strlit("<br>");
        reveal_strlit("<br/>");
        reveal_strlit("<br />");
        reveal_strlit("</p>");
        reveal_strlit("<p>");
        reveal_strlit("&lt;");
        reveal_strlit("&gt;");
        reveal_strlit("&amp;");
        reveal_strlit("&quot;");
        reveal_strlit("&#39;");
        reveal_strlit("&nbsp;");
    }
    let t = replace_str(inner_html, "<br>", "\n");
    let t = replace_str(t.as_str(), "<br/>", "\n");
    let t = replace_str(t.as_str(), "<br />", "\n");
    let t = replace_str(t.as_str(), "</p>", "\n");
    let t = replace_str(t.as_str(), "<p>", "");
    let t = regex_replace_all(HTML_TAG, t.as_str(), "");
    let t = replace_str(t.as_str(), "&lt;", "<");
    let t = replace_str(t.as_str(), "&gt;", ">");
    let t = replace_str(t.as_str(), "&amp;", "&");
    let t = replace_str(t.as_str(), "&quot;", "\"");
    let t = replace_str(t.as_str(), "&#39;", "'");
    let t = replace_str(t.as_str(), "&nbsp;", " ");
    let ls = split_lines(t.as_str());
    let ghost lv = ls@.map_values(|x: String| x@);
    let mut result = String::new();
    let mut prev_blank = false;
    let mut i: usize = 0;
    while i < ls.len()
        invariant
            i <= ls@.len(),
            lv == ls@.map_values(|x: String| x@),
            (result@, prev_blank) == folded_lines(lv.take(i as int)),
        decreases ls.len() - i,
    {
        assert(lv.take(i + 1).drop_last() == lv.take(i as int));
        assert(lv.take(i + 1).last() == ls@[i as int]@);
        let trimmed = trim_str(ls[i].as_str());
        if trimmed.as_str().is_empty() {
            if !prev_blank && !result.as_str().is_empty() {
                result.push('\n');
                prev_blank = true;
            }
        } else {
            if prev_blank {
                result.push('\n');
            }
            push_str(&mut result, trimmed.as_str());
            result.push('\n');
            prev_blank = false;
        }
        i += 1;
    }
    assert(lv.take(ls@.len() as int) == lv);
    trim_str(result.as_str())
}

/// Extract the text of a novel element from its inner HTML: converts `<br>`
/// tags and paragraphs to line breaks and strips other HTML. `None` when
/// the tag pattern is refused by the regex engine.
pub fn extract_novel_text(inner_html: &str) -> (r: Option<String>)
    ensures
        r is Some <==> regex_valid(HTML_TAG@),
        match r {
            Some(t) => t@ == novel_text_of(inner_html@),
            None => true,
        },
{
    if regex_compiles(HTML_TAG) {
        Some(novel_text(inner_html))
    } else {
        None
    }
}

/// The selectors as text.
pub open spec fn strs_view(v: Seq<&str>) -> Seq<Seq<char>> {
    v.map_values(|s: &str| s@)
}

/// The inner HTML of the first element of `html` that matches `sel`.
pub open spec fn first_inner(html: Seq<char>, sel: Seq<char>) -> Option<Seq<char>> {
    match selected_inner_html(html, sel) {
        Some(v) => if v.len() > 0 {
            Some(v[0])
        } else {
            None
        },
        None => None,
    }
}

/// The novel text of the first element matching the first of `sels` whose
/// first element has a non-empty novel text.
pub open spec fn section_text_of(html: Seq<char>, sels: Seq<Seq<char>>) -> Option<Seq<char>>
    decreases sels.len(),
{
    if sels.len() == 0 {
        None
    } else {
        match first_inner(html, sels[0]) {
            Some(inner) => if novel_text_of(inner).len() > 0 {
                Some(novel_text_of(inner))
            } else {
                section_text_of(html, sels.drop_first())
            },
            None => section_text_of(html, sels.drop_first()),
        }
    }
}

fn section_text(html: &str, sels: &[&str]) -> (r: Option<String>)
    requires
        regex_valid(HTML_TAG@),
    ensures
        match r {
            Some(t) => section_text_of(html@, strs_view(sels@)) == Some(t@),
            None => section_text_of(html@, strs_view(sels@)) is None,
        },
{
    let ghost sv = strs_view(sels@);
    let mut i: usize = 0;
    assert(sv.skip(0) == sv);
    while i < sels.len()
        invariant
            i <= sels@.len(),
            regex_valid(HTML_TAG@),
            sv == strs_view(sels@),
            section_text_of(html@, sv) == section_text_of(html@, sv.skip(i as int)),
        decreases sels.len() - i,
    {
        assert(sv.skip(i as int)[0] == sels@[i as int]@);
        assert(sv.skip(i as int).drop_first() == sv.skip(i + 1));
        assert(sv.skip(i as int).len() > 0);
        if let Some(v) = select_inner_html(html, sels[i]) {
            if v.len() > 0 {
                let t = novel_text(v[0].as_str());
                if !t.as_str().is_empty() {
                    return Some(t);
                }
            }
        }
        i += 1;
    }
    assert(sv.skip(sels@.len() as int) == Seq::<Seq<char>>::empty());
    None
}

/// A chapter page's text: the preface followed by a blank line, the body,
/// and a blank line followed by the afterword, each taken from the first of
/// its selectors whose element has text.
pub open spec fn chapter_content_of(
    html: Seq<char>,
    preface: Seq<Seq<char>>,
    body: Seq<Seq<char>>,
    afterword: Seq<Seq<char>>,
) -> Seq<char> {
    (match section_text_of(html, preface) {
        Some(t) => t + "\n\n"@,
        None => seq![],
    }) + (match section_text_of(html, body) {
        Some(t) => t,
        None => seq![],
    }) + (match section_text_of(html, afterword) {
        Some(t) => "\n\n"@ + t,
        None => seq![],
    })
}

/// The text of a chapter page from the given preface, body and afterword
/// selectors; `None` when the tag pattern is refused by the regex engine.
pub fn chapter_content(html: &str, preface: &[&str], body: &[&str], afterword: &[&str]) -> (r: Option<
    String,
>)
    ensures
        r is Some <==> regex_valid(HTML_TAG@),
        match r {
            Some(c) => c@ == chapter_content_of(
                html@,
                strs_view(preface@),
                strs_view(body@),
                strs_view(afterword@),
            ),
            None => true,
        },
{
    if !regex_compiles(HTML_TAG) {
        return None;
    }
    let mut content = String::new();
    if let Some(t) = section_text(html, preface) {
        push_str(&mut content, t.as_str());
        push_str(&mut content, "\n\n");
    }
    if let Some(t) = section_text(html, body) {
        push_str(&mut content, t.as_str());
    }
    if let Some(t) = section_text(html, afterword) {
        push_str(&mut content, "\n\n");
        push_str(&mut content, t.as_str());
    }
    Some(content)
}

/// The selectors of a chapter's preface, body and afterword, in the
/// current layout and then the legacy one.
pub open spec fn preface_selectors() -> Seq<Seq<char>> {
    seq![".p-novel__preface"@, "#novel_p"@]
}

pub open spec fn body_selectors() -> Seq<Seq<char>> {
    seq![".p-novel__body"@, "#novel_honbun"@]
}

pub open spec fn afterword_selectors() -> Seq<Seq<char>> {
    seq![".p-novel__afterword"@, "#novel_a"@]
}

/// Extract the full chapter content (preface + body + afterword) from a
/// chapter page, trying the current and the legacy layout; `None` when the
/// tag pattern is refused by the regex engine.
pub fn extract_chapter_content(html: &str) -> (r: Option<String>)
    ensures
        r is Some <==> regex_valid(HTML_TAG@),
        match r {
            Some(c) => c@ == chapter_content_of(
                html@,
                preface_selectors(),
                body_selectors(),
                afterword_selectors(),
            ),
            None => true,
        },
{
    let p: [&str; 2] = [".p-novel__preface", "#novel_p"];
    let b: [&str; 2] = [".p-novel__body", "#novel_honbun"];
    let a: [&str; 2] = [".p-novel__afterword", "#novel_a"];
    assert(strs_view(p@) == preface_selectors());
    assert(strs_view(b@) == body_selectors());
    assert(strs_view(a@) == afterword_selectors());
    chapter_content(html, &p, &b, &a)
}

/// The trimmed text of the first element matching the first of `sels`
/// whose first element's trimmed text is not empty.
pub open spec fn select_text_of(html: Seq<char>, sels: Seq<Seq<char>>) -> Option<Seq<char>>
    decreases sels.len(),
{
    if sels.len() == 0 {
        None
    } else if first_trimmed_text(html, sels[0]).len() > 0 {
        Some(first_trimmed_text(html, sels[0]))
    } else {
        select_text_of(html, sels.drop_first())
    }
}

/// Try multiple CSS selectors and return the trimmed text of the first match
/// that has any.
pub fn try_select_text(html: &str, selectors: &[&str]) -> (r: Option<String>)
    ensures
        match r {
            Some(t) => select_text_of(html@, strs_view(selectors@)) == Some(t@),
            None => select_text_of(html@, strs_view(selectors@)) is None,
        },
{
    let ghost sv = strs_view(selectors@);
    let mut i: usize = 0;
    assert(sv.skip(0) == sv);
    while i < selectors.len()
        invariant
            i <= selectors@.len(),
            sv == strs_view(selectors@),
            select_text_of(html@, sv) == select_text_of(html@, sv.skip(i as int)),
        decreases selectors.len() - i,
    {
        assert(sv.skip(i as int)[0] == selectors@[i as int]@);
        assert(sv.skip(i as int).drop_first() == sv.skip(i + 1));
        assert(sv.skip(i as int).len() > 0);
        let t = match first_of(html, selectors[i], "") {
            Some(e) => trim_str(e.text.as_str()),
            None => String::new(),
        };
        if !t.as_str().is_empty() {
            return Some(t);
        }
        i += 1;
    }
    assert(sv.skip(selectors@.len() as int) == Seq::<Seq<char>>::empty());
    None
}


// ─── Addresses and titles ───────────────────────────────────────────

/// The address of a novel's page on a site whose novels live under `base`:
/// the novel's main page for chapter 0 (a one-page novel), else the
/// chapter's page.
pub open spec fn page_url_of(base: Seq<char>, ncode: Seq<char>, chapter: nat) -> Seq<char> {
    if chapter == 0 {
        base + ncode + "/"@
    } else {
        base + ncode + "/"@ + decimal_digits(chapter) + "/"@
    }
}

/// The address of a novel's chapter page under `base` (the main page for
/// chapter 0).
pub fn page_url(base: &str, ncode: &str, chapter: usize) -> (r: String)
    ensures
        r@ == page_url_of(base@, ncode@, chapter as nat),
{
    let mut url = String::new();
    push_str(&mut url, base);
    push_str(&mut url, ncode);
    push_str(&mut url, "/");
    if chapter != 0 {
        push_decimal(&mut url, chapter);
        push_str(&mut url, "/");
    }
    url
}

/// The address of page `page` of a Syosetu novel's table of contents.
pub open spec fn toc_url_of(ncode: Seq<char>, page: nat) -> Seq<char> {
    if page == 1 {
        "https://ncode.syosetu.com/"@ + ncode + "/"@
    } else {
        "https://ncode.syosetu.com/"@ + ncode + "/?p="@ + decimal_digits(page)
    }
}

/// The address of page `page` of a Syosetu novel's table of contents.
pub fn toc_url(ncode: &str, page: usize) -> (r: String)
    ensures
        r@ == toc_url_of(ncode@, page as nat),
{
    let mut url = String::from_str("https://ncode.syosetu.com/");
    push_str(&mut url, ncode);
    if page == 1 {
        push_str(&mut url, "/");
    } else {
        push_str(&mut url, "/?p=");
        push_decimal(&mut url, page);
    }
    url
}

/// The title under which a chapter is stored: its own title, a dash and its
/// number.
pub open spec fn import_title_of(chapter_title: Seq<char>, chapter: nat) -> Seq<char> {
    chapter_title + " — Ch."@ + decimal_digits(chapter)
}

/// The title under which a chapter is stored.
pub fn import_title(chapter_title: &str, chapter: usize) -> (r: String)
    ensures
        r@ == import_title_of(chapter_title@, chapter as nat),
{
    let mut t = String::new();
    push_str(&mut t, chapter_title);
    push_str(&mut t, " — Ch.");
    push_decimal(&mut t, chapter);
    t
}

/// "Chapter" and the chapter's number.
pub open spec fn default_chapter_title(chapter: nat) -> Seq<char> {
    "Chapter "@ + decimal_digits(chapter)
}

fn chapter_fallback_title(chapter: usize) -> (r: String)
    ensures
        r@ == default_chapter_title(chapter as nat),
{
    let mut t = String::from_str("Chapter ");
    push_decimal(&mut t, chapter);
    t
}

/// The selectors of a chapter's own title, current layout first.
pub open spec fn subtitle_selectors() -> Seq<Seq<char>> {
    seq![".p-novel__subtitle"@, ".novel_subtitle"@]
}

/// A chapter page's title, or "Chapter" and its number.
pub open spec fn chapter_title_of(html: Seq<char>, chapter: nat) -> Seq<char> {
    match select_text_of(html, subtitle_selectors()) {
        Some(t) => t,
        None => default_chapter_title(chapter),
    }
}

/// The title of a chapter page (current layout, then legacy), or "Chapter"
/// and its number.
pub fn chapter_title(html: &str, chapter: usize) -> (r: String)
    ensures
        r@ == chapter_title_of(html@, chapter as nat),
{
    let sels: [&str; 2] = [".p-novel__subtitle", ".novel_subtitle"];
    assert(strs_view(sels@) == subtitle_selectors());
    match try_select_text(html, &sels) {
        Some(t) => t,
        None => chapter_fallback_title(chapter),
    }
}

/// What is stored of a fetched chapter page: its title and its text; or the
/// error when the page has no text (or the tag pattern is refused).
pub fn prepare_chapter(ncode: &str, chapter: usize, html: &str) -> (r: Result<(String, String), String>)
    ensures
        match r {
            Ok((title, content)) => {
                &&& regex_valid(HTML_TAG@)
                &&& title@ == import_title_of(chapter_title_of(html@, chapter as nat), chapter as nat)
                &&& content@ == chapter_content_of(
                    html@,
                    preface_selectors(),
                    body_selectors(),
                    afterword_selectors(),
                )
                &&& trim(content@).len() > 0
            },
            Err(e) => {
                ||| !regex_valid(HTML_TAG@) && e@ == "The HTML tag pattern does not compile"@
                ||| regex_valid(HTML_TAG@) && trim(
                    chapter_content_of(
                        html@,
                        preface_selectors(),
                        body_selectors(),
                        afterword_selectors(),
                    ),
                ).len() == 0 && e@ == "Could not extract chapter text from "@ + page_url_of(
                    "https://ncode.syosetu.com/"@,
                    ncode@,
                    chapter as nat,
                )
            },
        },
{
    let content = match extract_chapter_content(html) {
        Some(c) => c,
        None => return Err(String::from_str("The HTML tag pattern does not compile")),
    };
    if trim_str(content.as_str()).as_str().is_empty() {
        let mut e = String::from_str("Could not extract chapter text from ");
        let url = page_url("https://ncode.syosetu.com/", ncode, chapter);
        push_str(&mut e, url.as_str());
        return Err(e);
    }
    let t = chapter_title(html, chapter);
    Ok((import_title(t.as_str(), chapter), content))
}

// ─── Table of contents ──────────────────────────────────────────────

/// The selectors of a novel's title and author, current layout first.
pub open spec fn title_selectors() -> Seq<Seq<char>> {
    seq![".p-novel__title"@, ".novel_title"@]
}

pub open spec fn author_selectors() -> Seq<Seq<char>> {
    seq![".p-novel__author a"@, ".novel_writername a"@]
}

/// A novel's title from its first table-of-contents page, or "Novel" and
/// its code.
pub open spec fn novel_title_of(html: Seq<char>, ncode: Seq<char>) -> Seq<char> {
    match select_text_of(html, title_selectors()) {
        Some(t) => t,
        None => "Novel "@ + ncode,
    }
}

/// A novel's title, read from its first table-of-contents page.
pub fn novel_title(html: &str, ncode: &str) -> (r: String)
    ensures
        r@ == novel_title_of(html@, ncode@),
{
    let sels: [&str; 2] = [".p-novel__title", ".novel_title"];
    assert(strs_view(sels@) == title_selectors());
    match try_select_text(html, &sels) {
        Some(t) => t,
        None => {
            let mut t = String::from_str("Novel ");
            push_str(&mut t, ncode);
            t
        },
    }
}

/// A novel's author from its first table-of-contents page, or nothing.
pub open spec fn novel_author_of(html: Seq<char>) -> Seq<char> {
    match select_text_of(html, author_selectors()) {
        Some(t) => t,
        None => seq![],
    }
}

/// A novel's author, read from its first table-of-contents page.
pub fn novel_author(html: &str) -> (r: String)
    ensures
        r@ == novel_author_of(html@),
{
    let sels: [&str; 2] = [".p-novel__author a", ".novel_writername a"];
    assert(strs_view(sels@) == author_selectors());
    match try_select_text(html, &sels) {
        Some(t) => t,
        None => String::new(),
    }
}

/// The non-blank trimmed texts of the elements matching `sel`.
pub open spec fn nonblank_texts_of(html: Seq<char>, sel: Seq<char>) -> Seq<Seq<char>> {
    match selected_elements(html, sel, ""@) {
        Some(v) => nonblank_trimmed(texts_of(v)),
        None => seq![],
    }
}

/// The chapter titles listed on a table-of-contents page: those of the
/// current layout, or, when it lists none, those of the legacy layout.
pub open spec fn toc_titles_of(html: Seq<char>) -> Seq<Seq<char>> {
    if nonblank_texts_of(html, ".p-eplist__subtitle"@).len() > 0 {
        nonblank_texts_of(html, ".p-eplist__subtitle"@)
    } else {
        nonblank_texts_of(html, ".subtitle a"@)
    }
}

fn nonblank_texts(html: &str, sel: &str) -> (r: Vec<String>)
    ensures
        strings_view(r@) == nonblank_texts_of(html@, sel@),
{
    match select_elements(html, sel, "") {
        Some(v) => trimmed_nonblank_texts(&v),
        None => Vec::new(),
    }
}

/// The chapter titles listed on a table-of-contents page.
pub fn toc_titles(html: &str) -> (r: Vec<String>)
    ensures
        strings_view(r@) == toc_titles_of(html@),
{
    let current = nonblank_texts(html, ".p-eplist__subtitle");
    if current.len() > 0 {
        current
    } else {
        nonblank_texts(html, ".subtitle a")
    }
}

/// Whether a table-of-contents page links to a next page: its pager's
/// "next" item is a link, not a plain span.
pub open spec fn has_next_of(html: Seq<char>) -> bool {
    match first_element(html, ".c-pager__item--next"@, ""@) {
        Some(e) => e.name == "a"@,
        None => false,
    }
}

/// Whether a table-of-contents page links to a next page.
pub fn has_next_page(html: &str) -> (r: bool)
    ensures
        r == has_next_of(html@),
{
    match first_of(html, ".c-pager__item--next", "") {
        Some(e) => crate::text::str_eq(e.name.as_str(), "a"),
        None => false,
    }
}

/// Whether `c` is a freshly listed chapter: numbered `number`, titled
/// `title`, not imported yet and without a word count.
pub open spec fn is_listed_chapter(c: SyosetuChapter, number: int, title: Seq<char>) -> bool {
    &&& c.number == number
    &&& c.title@ == title
    &&& c.text_id is None
    &&& c.word_count == 0
}

/// Takes in one fetched table-of-contents page: appends its chapters,
/// numbered on from those already listed, and says whether to fetch the
/// next page (it has one, and this page listed chapters). Nothing changes,
/// and no page follows, where the numbers would not fit a `usize`.
pub fn absorb_toc_page(chapters: &mut Vec<SyosetuChapter>, html: &str) -> (more: bool)
    ensures
        ({
            let ts = toc_titles_of(html@);
            let n = old(chapters)@.len();
            if n + ts.len() < usize::MAX {
                &&& final(chapters)@.len() == n + ts.len()
                &&& forall|k: int| 0 <= k < n ==> #[trigger] final(chapters)@[k] == old(chapters)@[k]
                &&& forall|k: int|
                    0 <= k < ts.len() ==> is_listed_chapter(
                        #[trigger] final(chapters)@[n + k],
                        n + k + 1,
                        ts[k],
                    )
                &&& more == (has_next_of(html@) && ts.len() > 0)
            } else {
                &&& final(chapters)@ == old(chapters)@
                &&& !more
            }
        }),
{
    let titles = toc_titles(html);
    let ghost ts = toc_titles_of(html@);
    let n = chapters.len();
    if titles.len() >= usize::MAX - n {
        return false;
    }
    let mut i: usize = 0;
    while i < titles.len()
        invariant
            i <= titles@.len(),
            n == old(chapters)@.len(),
            n + titles@.len() < usize::MAX,
            strings_view(titles@) == ts,
            chapters@.len() == n + i,
            forall|k: int| 0 <= k < n ==> #[trigger] chapters@[k] == old(chapters)@[k],
            forall|k: int| 0 <= k < i ==> is_listed_chapter(#[trigger] chapters@[n + k], n + k + 1, ts[k]),
        decreases titles.len() - i,
    {
        assert(ts[i as int] == titles@[i as int]@);
        chapters.push(
            SyosetuChapter { number: n + i + 1, title: titles[i].clone(), text_id: None, word_count: 0 },
        );
        i += 1;
    }
    has_next_page(html) && titles.len() > 0
}

/// Whether the page holds a novel body.
pub open spec fn has_novel_body(html: Seq<char>) -> bool {
    first_element(html, "#novel_honbun"@, ""@) is Some
}

/// The single chapter of a one-page novel, titled after the novel, when its
/// page holds a novel body.
pub fn oneshot_chapter(html: &str, title: &str) -> (r: Option<SyosetuChapter>)
    ensures
        match r {
            Some(c) => has_novel_body(html@) && is_listed_chapter(c, 1, title@),
            None => !has_novel_body(html@),
        },
{
    match first_of(html, "#novel_honbun", "") {
        Some(_) => Some(
            SyosetuChapter {
                number: 1,
                title: String::from_str(title),
                text_id: None,
                word_count: 0,
            },
        ),
        None => None,
    }
}

} // verus!
