//! The reader's view of a text: tokens as displayed, their grouping into
//! conjugation groups and multi-word expressions, and the English names of
//! UniDic conjugation forms and types.
use vstd::prelude::*;
use crate::models::{Token, UserExpression, VocabularyStatus};
use crate::text::{to_chars, string_of_range, push_str, str_eq, trim, strings_view};
use crate::tokenizer::{numeric_str, ascii_only_str, is_numeric, is_ascii_only, is_blank};
use crate::conjugation::{
    GroupToken, GroupTokenView, GroupView, ConjugationGroup, gt_view, gt_views, groups_view, groups_from,
    group_end, assign_conjugation_groups, law_conjugation_groups_well_formed, index_range,
};

verus! {

/// A token as displayed in the reader.
#[derive(Debug, Clone)]
pub struct TokenDisplay {
    pub surface: String,
    pub base_form: String,
    /// Lemma/base form reading (for vocabulary matching).
    pub reading: String,
    /// Surface form reading (for furigana display — matches the conjugated form).
    pub surface_reading: String,
    pub pos: String,
    pub vocabulary_status: VocabularyStatus,
    pub is_selected: bool,
    pub short_gloss: String,
    pub conjugation_form: String,
    pub conjugation_type: String,
    pub is_trivial: bool,
    /// Shared group index within the sentence (None = standalone token).
    pub group_id: Option<usize>,
    /// True for the vocabulary-bearing head token of a conjugation/MWE group.
    pub is_group_head: bool,
    /// Human-readable conjugation description: "verb, negative, past".
    pub conjugation_desc: String,
    /// For MWE groups: the expression's English meaning.
    pub mwe_gloss: String,
}

pub open spec fn navigable(t: TokenDisplay) -> bool {
    !t.is_trivial && (t.group_id is None || t.is_group_head)
}

impl TokenDisplay {
    /// Whether this token should be a navigation target when using Left/Right keys.
    /// Skips trivial tokens and non-head group members (auxiliaries in conjugation groups).
    pub fn is_navigable(&self) -> (r: bool)
        ensures
            r == navigable(*self),
    {
        !self.is_trivial && (self.group_id.is_none() || self.is_group_head)
    }
}

/// A multi-word expression match detected in a sentence.
#[derive(Debug, Clone)]
pub struct MweMatch {
    /// First token index in the sentence.
    pub start: usize,
    /// One past the last token index.
    pub end: usize,
    /// Concatenated surface text of the matched tokens.
    pub surface: String,
    /// Reading from the dictionary or user expression.
    pub reading: String,
    /// English meaning.
    pub gloss: String,
}

/// Data for a single sentence in the reader.
#[derive(Debug, Clone)]
pub struct SentenceData {
    pub paragraph_idx: usize,
    pub start_token: usize,
    pub end_token: usize,
    pub tokens: Vec<TokenDisplay>,
    pub text: String,
}

/// Data for a paragraph in the reader.
#[derive(Debug, Clone)]
pub struct ParagraphData {
    pub id: i64,
    pub position: i32,
    pub content: String,
    pub db_tokens: Vec<Token>,
}

/// A batch of words that were autopromoted from New to Known on a single sentence advance.
#[derive(Debug, Clone)]
pub struct AutopromotionBatch {
    /// Which sentence the user was leaving when this batch was created.
    pub sentence_index: usize,
    /// The words that were promoted: (base_form, reading, vocabulary_id).
    pub words: Vec<(String, String, i64)>,
}

// ─── Conjugation names ──────────────────────────────────────────────

/// The position of the first `-` in `s` at or after `from`, or `s.len()`.
pub open spec fn first_dash(s: Seq<char>, from: int) -> int
    decreases s.len() - from,
{
    if from < 0 || from >= s.len() {
        s.len() as int
    } else if s[from] == '-' {
        from
    } else {
        first_dash(s, from + 1)
    }
}

proof fn lemma_first_dash_bounds(s: Seq<char>, from: int)
    requires
        0 <= from <= s.len(),
    ensures
        from <= first_dash(s, from) <= s.len(),
        first_dash(s, from) < s.len() ==> s[first_dash(s, from)] == '-',
    decreases s.len() - from,
{
    if from < s.len() && s[from] != '-' {
        lemma_first_dash_bounds(s, from + 1);
    }
}

fn dash_index(v: &[char]) -> (k: usize)
    ensures
        k as int == first_dash(v@, 0),
        k <= v@.len(),
{
    let mut i: usize = 0;
    while i < v.len()
        invariant
            i <= v@.len(),
            first_dash(v@, 0) == first_dash(v@, i as int),
        decreases v.len() - i,
    {
        if v[i] == '-' {
            return i;
        }
        i += 1;
    }
    i
}

/// A name split at its first `-`: "main (sub)" with both parts renamed, or
/// the renamed name when it has no `-`.
pub open spec fn two_part_name(
    s: Seq<char>,
    main: Seq<char>,
    sub: Seq<char>,
) -> Seq<char> {
    if first_dash(s, 0) < s.len() {
        main + " ("@ + sub + ")"@
    } else {
        main
    }
}

/// English name of the main part of a UniDic conjugation form.
pub open spec fn form_main_name(m: Seq<char>) -> Seq<char> {
    if m == "未然形"@ {
        "irrealis"@
    } else if m == "連用形"@ {
        "continuative"@
    } else if m == "終止形"@ {
        "terminal"@
    } else if m == "連体形"@ {
        "attributive"@
    } else if m == "仮定形"@ {
        "conditional"@
    } else if m == "命令形"@ {
        "imperative"@
    } else if m == "意志推量形"@ {
        "volitional"@
    } else if m == "語幹"@ {
        "stem"@
    } else {
        m
    }
}

/// English name of the sub-part of a UniDic conjugation form.
pub open spec fn form_sub_name(m: Seq<char>) -> Seq<char> {
    if m == "一般"@ {
        "general"@
    } else if m == "促音便"@ {
        "geminate"@
    } else if m == "撥音便"@ {
        "nasal"@
    } else if m == "イ音便"@ {
        "i-onbin"@
    } else if m == "ウ音便"@ {
        "u-onbin"@
    } else if m == "基本形"@ {
        "basic"@
    } else if m == "縮約形"@ {
        "contracted"@
    } else {
        m
    }
}

/// English name of the main part of a UniDic conjugation type.
pub open spec fn type_main_name(m: Seq<char>) -> Seq<char> {
    if m == "五段"@ {
        "godan"@
    } else if m == "上一段"@ {
        "ichidan-upper"@
    } else if m == "下一段"@ {
        "ichidan-lower"@
    } else if m == "カ行変格"@ {
        "ka-irregular"@
    } else if m == "サ行変格"@ {
        "sa-irregular"@
    } else if m == "形容詞"@ {
        "i-adjective"@
    } else if m == "助動詞"@ {
        "auxiliary"@
    } else if m == "文語"@ {
        "classical"@
    } else {
        m
    }
}

/// English name of the sub-part of a UniDic conjugation type.
pub open spec fn type_sub_name(m: Seq<char>) -> Seq<char> {
    if m == "カ行"@ {
        "ka-row"@
    } else if m == "ガ行"@ {
        "ga-row"@
    } else if m == "サ行"@ {
        "sa-row"@
    } else if m == "タ行"@ {
        "ta-row"@
    } else if m == "ナ行"@ {
        "na-row"@
    } else if m == "バ行"@ {
        "ba-row"@
    } else if m == "マ行"@ {
        "ma-row"@
    } else if m == "ラ行"@ {
        "ra-row"@
    } else if m == "ワ行"@ {
        "wa-row"@
    } else if m == "タ"@ {
        "ta"@
    } else if m == "ダ"@ {
        "da"@
    } else if m == "デス"@ {
        "desu"@
    } else if m == "マス"@ {
        "masu"@
    } else if m == "タイ"@ {
        "tai"@
    } else if m == "ナイ"@ {
        "nai"@
    } else if m == "ヌ"@ {
        "nu"@
    } else if m == "レル"@ {
        "reru"@
    } else if m == "ラレル"@ {
        "rareru"@
    } else if m == "セル"@ {
        "seru"@
    } else if m == "サセル"@ {
        "saseru"@
    } else {
        m
    }
}

/// The part of `s` before its first `-` (all of `s` when there is none).
pub open spec fn before_dash(s: Seq<char>) -> Seq<char> {
    s.take(first_dash(s, 0))
}

/// The part of `s` after its first `-` (empty when there is none).
pub open spec fn after_dash(s: Seq<char>) -> Seq<char> {
    if first_dash(s, 0) < s.len() {
        s.skip(first_dash(s, 0) + 1)
    } else {
        seq![]
    }
}

/// English name of a UniDic conjugation form such as "連用形-一般".
pub open spec fn conjugation_form_name(s: Seq<char>) -> Seq<char> {
    if s.len() == 0 {
        seq![]
    } else {
        two_part_name(s, form_main_name(before_dash(s)), form_sub_name(after_dash(s)))
    }
}

/// English name of a UniDic conjugation type such as "五段-カ行".
pub open spec fn conjugation_type_name(s: Seq<char>) -> Seq<char> {
    if s.len() == 0 {
        seq![]
    } else {
        two_part_name(s, type_main_name(before_dash(s)), type_sub_name(after_dash(s)))
    }
}

fn form_main_label(m: &str) -> (r: Option<&'static str>)
    ensures
        match r {
            Some(x) => x@ == form_main_name(m@),
            None => form_main_name(m@) == m@,
        },
{
    if str_eq(m, "未然形") {
        Some("irrealis")
    } else if str_eq(m, "連用形") {
        Some("continuative")
    } else if str_eq(m, "終止形") {
        Some("terminal")
    } else if str_eq(m, "連体形") {
        Some("attributive")
    } else if str_eq(m, "仮定形") {
        Some("conditional")
    } else if str_eq(m, "命令形") {
        Some("imperative")
    } else if str_eq(m, "意志推量形") {
        Some("volitional")
    } else if str_eq(m, "語幹") {
        Some("stem")
    } else {
        None
    }
}

fn form_sub_label(m: &str) -> (r: Option<&'static str>)
    ensures
        match r {
            Some(x) => x@ == form_sub_name(m@),
            None => form_sub_name(m@) == m@,
        },
{
    if str_eq(m, "一般") {
        Some("general")
    } else if str_eq(m, "促音便") {
        Some("geminate")
    } else if str_eq(m, "撥音便") {
        Some("nasal")
    } else if str_eq(m, "イ音便") {
        Some("i-onbin")
    } else if str_eq(m, "ウ音便") {
        Some("u-onbin")
    } else if str_eq(m, "基本形") {
        Some("basic")
    } else if str_eq(m, "縮約形") {
        Some("contracted")
    } else {
        None
    }
}

fn type_main_label(m: &str) -> (r: Option<&'static str>)
    ensures
        match r {
            Some(x) => x@ == type_main_name(m@),
            None => type_main_name(m@) == m@,
        },
{
    if str_eq(m, "五段") {
        Some("godan")
    } else if str_eq(m, "上一段") {
        Some("ichidan-upper")
    } else if str_eq(m, "下一段") {
        Some("ichidan-lower")
    } else if str_eq(m, "カ行変格") {
        Some("ka-irregular")
    } else if str_eq(m, "サ行変格") {
        Some("sa-irregular")
    } else if str_eq(m, "形容詞") {
        Some("i-adjective")
    } else if str_eq(m, "助動詞") {
        Some("auxiliary")
    } else if str_eq(m, "文語") {
        Some("classical")
    } else {
        None
    }
}

fn type_sub_label(m: &str) -> (r: Option<&'static str>)
    ensures
        match r {
            Some(x) => x@ == type_sub_name(m@),
            None => type_sub_name(m@) == m@,
        },
{
    if str_eq(m, "カ行") {
        Some("ka-row")
    } else if str_eq(m, "ガ行") {
        Some("ga-row")
    } else if str_eq(m, "サ行") {
        Some("sa-row")
    } else if str_eq(m, "タ行") {
        Some("ta-row")
    } else if str_eq(m, "ナ行") {
        Some("na-row")
    } else if str_eq(m, "バ行") {
        Some("ba-row")
    } else if str_eq(m, "マ行") {
        Some("ma-row")
    } else if str_eq(m, "ラ行") {
        Some("ra-row")
    } else if str_eq(m, "ワ行") {
        Some("wa-row")
    } else if str_eq(m, "タ") {
        Some("ta")
    } else if str_eq(m, "ダ") {
        Some("da")
    } else if str_eq(m, "デス") {
        Some("desu")
    } else if str_eq(m, "マス") {
        Some("masu")
    } else if str_eq(m, "タイ") {
        Some("tai")
    } else if str_eq(m, "ナイ") {
        Some("nai")
    } else if str_eq(m, "ヌ") {
        Some("nu")
    } else if str_eq(m, "レル") {
        Some("reru")
    } else if str_eq(m, "ラレル") {
        Some("rareru")
    } else if str_eq(m, "セル") {
        Some("seru")
    } else if str_eq(m, "サセル") {
        Some("saseru")
    } else {
        None
    }
}

fn label_or_part(label: Option<&'static str>, part: &str) -> (r: String)
    ensures
        r@ == match label {
            Some(x) => x@,
            None => part@,
        },
{
    match label {
        Some(x) => String::from_str(x),
        None => String::from_str(part),
    }
}

/// Splits `s` at its first `-`: the part before, and the part after if there is a `-`.
fn split_at_dash(s: &str) -> (r: (String, Option<String>))
    ensures
        r.0@ == before_dash(s@),
        match r.1 {
            Some(x) => first_dash(s@, 0) < s@.len() && x@ == after_dash(s@),
            None => first_dash(s@, 0) == s@.len(),
        },
{
    let v = to_chars(s);
    let k = dash_index(&v);
    proof {
        lemma_first_dash_bounds(v@, 0);
    }
    let main = string_of_range(&v, 0, k);
    assert(v@.subrange(0, k as int) == v@.take(k as int));
    if k < v.len() {
        let sub = string_of_range(&v, k + 1, v.len());
        assert(v@.subrange(k + 1, v@.len() as int) == v@.skip(k + 1));
        (main, Some(sub))
    } else {
        (main, None)
    }
}

fn join_two_part(main: String, sub: Option<String>) -> (r: String)
    ensures
        r@ == match sub {
            Some(x) => main@ + " ("@ + x@ + ")"@,
            None => main@,
        },
{
    match sub {
        Some(x) => {
            let mut out = main;
            push_str(&mut out, " (");
            push_str(&mut out, x.as_str());
            push_str(&mut out, ")");
            out
        },
        None => main,
    }
}

/// Translate UniDic conjugation form names (Japanese) to English, e.g.
/// "連用形-一般" to "continuative (general)".
pub fn translate_conjugation_form(form: &str) -> (r: String)
    ensures
        r@ == conjugation_form_name(form@),
{
    if form.is_empty() {
        return String::new();
    }
    let (main, sub) = split_at_dash(form);
    let main_name = label_or_part(form_main_label(main.as_str()), main.as_str());
    let sub_name = match sub {
        Some(x) => Some(label_or_part(form_sub_label(x.as_str()), x.as_str())),
        None => None,
    };
    join_two_part(main_name, sub_name)
}

/// Translate UniDic conjugation type names (Japanese) to English, e.g.
/// "五段-カ行" to "godan (ka-row)".
pub fn translate_conjugation_type(ctype: &str) -> (r: String)
    ensures
        r@ == conjugation_type_name(ctype@),
{
    if ctype.is_empty() {
        return String::new();
    }
    let (main, sub) = split_at_dash(ctype);
    let main_name = label_or_part(type_main_label(main.as_str()), main.as_str());
    let sub_name = match sub {
        Some(x) => Some(label_or_part(type_sub_label(x.as_str()), x.as_str())),
        None => None,
    };
    join_two_part(main_name, sub_name)
}

// ─── Conjugation groups in the reader ───────────────────────────────

/// The texts and flags of a [`TokenDisplay`].
pub struct TokenDisplayView {
    pub surface: Seq<char>,
    pub base_form: Seq<char>,
    pub reading: Seq<char>,
    pub surface_reading: Seq<char>,
    pub pos: Seq<char>,
    pub vocabulary_status: VocabularyStatus,
    pub is_selected: bool,
    pub short_gloss: Seq<char>,
    pub conjugation_form: Seq<char>,
    pub conjugation_type: Seq<char>,
    pub is_trivial: bool,
    pub group_id: Option<usize>,
    pub is_group_head: bool,
    pub conjugation_desc: Seq<char>,
    pub mwe_gloss: Seq<char>,
}

impl View for TokenDisplay {
    type V = TokenDisplayView;

    open spec fn view(&self) -> TokenDisplayView {
        TokenDisplayView {
            surface: self.surface@,
            base_form: self.base_form@,
            reading: self.reading@,
            surface_reading: self.surface_reading@,
            pos: self.pos@,
            vocabulary_status: self.vocabulary_status,
            is_selected: self.is_selected,
            short_gloss: self.short_gloss@,
            conjugation_form: self.conjugation_form@,
            conjugation_type: self.conjugation_type@,
            is_trivial: self.is_trivial,
            group_id: self.group_id,
            is_group_head: self.is_group_head,
            conjugation_desc: self.conjugation_desc@,
            mwe_gloss: self.mwe_gloss@,
        }
    }
}

pub open spec fn displays_view(v: Seq<TokenDisplay>) -> Seq<TokenDisplayView> {
    v.map_values(|t: TokenDisplay| t@)
}

/// What the conjugation grouping reads of each displayed token.
pub open spec fn grouping_view(v: Seq<TokenDisplayView>) -> Seq<GroupTokenView> {
    v.map_values(
        |t: TokenDisplayView|
            GroupTokenView { pos: t.pos, base_form: t.base_form, conjugation_form: t.conjugation_form },
    )
}

/// A token joined to a group: it takes the group's id and the head's status,
/// and is no longer trivial.
pub open spec fn as_member(t: TokenDisplayView, gid: usize, status: VocabularyStatus) -> TokenDisplayView {
    TokenDisplayView { group_id: Some(gid), vocabulary_status: status, is_trivial: false, ..t }
}

/// The tokens after one conjugation group is applied: every member joins the
/// group with the head's status, and the head is marked and described.
pub open spec fn apply_group(toks: Seq<TokenDisplayView>, g: GroupView) -> Seq<TokenDisplayView> {
    let head = g.head_index as int;
    let status = toks[head].vocabulary_status;
    Seq::new(
        toks.len(),
        |k: int|
            {
                let t = if head <= k < group_end(g) {
                    as_member(toks[k], g.group_id as usize, status)
                } else {
                    toks[k]
                };
                if k == head {
                    TokenDisplayView { is_group_head: true, conjugation_desc: g.description, ..t }
                } else {
                    t
                }
            },
    )
}

/// The tokens after the groups are applied in order.
pub open spec fn apply_groups(toks: Seq<TokenDisplayView>, gs: Seq<GroupView>) -> Seq<TokenDisplayView>
    decreases gs.len(),
{
    if gs.len() == 0 {
        toks
    } else {
        apply_group(apply_groups(toks, gs.drop_last()), gs.last())
    }
}

proof fn lemma_apply_groups_len(toks: Seq<TokenDisplayView>, gs: Seq<GroupView>)
    ensures
        apply_groups(toks, gs).len() == toks.len(),
    decreases gs.len(),
{
    if gs.len() > 0 {
        lemma_apply_groups_len(toks, gs.drop_last());
    }
}

fn set_group_member(tokens: &mut Vec<TokenDisplay>, idx: usize, gid: usize, status: VocabularyStatus)
    requires
        idx < old(tokens)@.len(),
    ensures
        final(tokens)@.len() == old(tokens)@.len(),
        displays_view(final(tokens)@) == displays_view(old(tokens)@).update(
            idx as int,
            as_member(old(tokens)@[idx as int]@, gid, status),
        ),
{
    let mut t = tokens.remove(idx);
    t.group_id = Some(gid);
    t.vocabulary_status = status;
    t.is_trivial = false;
    tokens.insert(idx, t);
    assert(displays_view(tokens@) =~= displays_view(old(tokens)@).update(
        idx as int,
        as_member(old(tokens)@[idx as int]@, gid, status),
    ));
}

fn set_group_head(tokens: &mut Vec<TokenDisplay>, idx: usize, desc: String)
    requires
        idx < old(tokens)@.len(),
    ensures
        final(tokens)@.len() == old(tokens)@.len(),
        displays_view(final(tokens)@) == displays_view(old(tokens)@).update(
            idx as int,
            TokenDisplayView { is_group_head: true, conjugation_desc: desc@, ..old(tokens)@[idx as int]@ },
        ),
{
    let mut t = tokens.remove(idx);
    t.is_group_head = true;
    t.conjugation_desc = desc;
    tokens.insert(idx, t);
    assert(displays_view(tokens@) =~= displays_view(old(tokens)@).update(
        idx as int,
        TokenDisplayView { is_group_head: true, conjugation_desc: desc@, ..old(tokens)@[idx as int]@ },
    ));
}

fn apply_one_group(tokens: &mut Vec<TokenDisplay>, group: &ConjugationGroup)
    requires
        group.member_indices@.len() >= 1,
        group.view().member_indices == index_range(group.head_index as int, group_end(group.view())),
        group_end(group.view()) <= old(tokens)@.len(),
    ensures
        displays_view(final(tokens)@) == apply_group(displays_view(old(tokens)@), group.view()),
{
    let ghost g = group.view();
    let ghost start = displays_view(tokens@);
    let head_status = tokens[group.head_index].vocabulary_status;
    let mut m: usize = 0;
    while m < group.member_indices.len()
        invariant
            g == group.view(),
            g.member_indices == index_range(group.head_index as int, group_end(g)),
            group_end(g) <= start.len(),
            start.len() == tokens@.len(),
            head_status == start[group.head_index as int].vocabulary_status,
            m <= group.member_indices@.len(),
            forall|k: int|
                0 <= k < start.len() ==> #[trigger] displays_view(tokens@)[k] == if group.head_index <= k
                    < group.head_index + m {
                    as_member(start[k], group.group_id, head_status)
                } else {
                    start[k]
                },
        decreases group.member_indices.len() - m,
    {
        let idx = group.member_indices[m];
        assert(g.member_indices[m as int] == idx);
        assert(group.head_index + m < tokens.len());
        assert(index_range(group.head_index as int, group_end(g))[m as int] == (group.head_index
            + m) as usize);
        assert(idx == group.head_index + m);
        let ghost before = displays_view(tokens@);
        assert(before[idx as int] == start[idx as int]);
        assert(before[idx as int] == tokens@[idx as int]@);
        set_group_member(tokens, idx, group.group_id, head_status);
        m += 1;
        assert forall|k: int| 0 <= k < start.len() implies #[trigger] displays_view(tokens@)[k] == if group.head_index
            <= k < group.head_index + m {
            as_member(start[k], group.group_id, head_status)
        } else {
            start[k]
        } by {
            if k != idx {
                assert(displays_view(tokens@)[k] == before[k]);
            }
        }
    }
    let desc = group.description.clone();
    set_group_head(tokens, group.head_index, desc);
    assert(displays_view(tokens@) =~= apply_group(start, g));
}

/// Apply conjugation grouping to a sentence's tokens.
/// Groups verb/adjective heads with following auxiliaries, assigns group IDs,
/// propagates the head's vocabulary_status to group members, and sets
/// the conjugation description on the head token.
pub fn apply_conjugation_groups(tokens: &mut Vec<TokenDisplay>)
    ensures
        displays_view(final(tokens)@) == apply_groups(
            displays_view(old(tokens)@),
            groups_from(grouping_view(displays_view(old(tokens)@)), 0, 0),
        ),
{
    let ghost start = displays_view(tokens@);
    let mut group_tokens: Vec<GroupToken> = Vec::new();
    let mut i: usize = 0;
    while i < tokens.len()
        invariant
            i <= tokens@.len(),
            gt_views(group_tokens@) == grouping_view(displays_view(tokens@)).take(i as int),
        decreases tokens.len() - i,
    {
        let t = &tokens[i];
        let gt = GroupToken {
            pos: t.pos.as_str(),
            base_form: t.base_form.as_str(),
            conjugation_form: t.conjugation_form.as_str(),
        };
        assert(gt_view(gt) == grouping_view(displays_view(tokens@))[i as int]);
        let ghost prev = group_tokens@;
        assert(grouping_view(displays_view(tokens@)).len() == tokens@.len());
        assert(gt_views(prev).len() == prev.len());
        assert(prev.len() == i);
        group_tokens.push(gt);
        i += 1;
        assert forall|j: int| 0 <= j < i implies #[trigger] gt_views(group_tokens@)[j]
            == grouping_view(displays_view(tokens@))[j] by {
            if j < i - 1 {
                assert(group_tokens@[j] == prev[j]);
                assert(gt_views(prev)[j] == grouping_view(displays_view(tokens@)).take(i - 1)[j]);
            }
        }
        assert(gt_views(group_tokens@) =~= grouping_view(displays_view(tokens@)).take(i as int));
    }
    assert(grouping_view(displays_view(tokens@)).take(i as int) == grouping_view(displays_view(tokens@)));
    let groups = assign_conjugation_groups(&group_tokens);
    let ghost gs = groups_view(groups@);
    let ghost gtoks = grouping_view(start);
    proof {
        law_conjugation_groups_well_formed(gtoks);
        assert(gs == groups_from(gtoks, 0, 0));
    }
    let mut k: usize = 0;
    while k < groups.len()
        invariant
            k <= groups@.len(),
            gs == groups_view(groups@),
            gs == groups_from(gtoks, 0, 0),
            gtoks.len() == start.len(),
            forall|j: int|
                0 <= j < gs.len() ==> {
                    let g = #[trigger] gs[j];
                    &&& g.member_indices.len() >= 1
                    &&& group_end(g) <= gtoks.len()
                    &&& g.member_indices == index_range(g.head_index as int, group_end(g))
                },
            displays_view(tokens@) == apply_groups(start, gs.take(k as int)),
        decreases groups.len() - k,
    {
        let ghost before = displays_view(tokens@);
        proof {
            lemma_apply_groups_len(start, gs.take(k as int));
            assert(gs[k as int] == groups@[k as int].view());
        }
        apply_one_group(tokens, &groups[k]);
        k += 1;
        assert(gs.take(k as int).drop_last() == gs.take(k - 1));
    }
    assert(gs.take(k as int) == gs);
}

/// The groups lie within `len` tokens, each spans its head and the members
/// after it, and each ends at or before the next one's head.
pub open spec fn groups_in_order(gs: Seq<GroupView>, len: int) -> bool {
    &&& forall|q: int|
        0 <= q < gs.len() ==> (#[trigger] gs[q]).head_index < group_end(gs[q]) <= len
    &&& forall|a: int, b: int| 0 <= a < b < gs.len() ==> group_end(#[trigger] gs[a]) <= (#[trigger] gs[b]).head_index
}

proof fn lemma_apply_groups_take(toks: Seq<TokenDisplayView>, gs: Seq<GroupView>, n: int)
    requires
        0 < n <= gs.len(),
    ensures
        apply_groups(toks, gs.take(n)) == apply_group(apply_groups(toks, gs.take(n - 1)), gs[n - 1]),
{
    assert(gs.take(n).drop_last() =~= gs.take(n - 1));
}

proof fn lemma_apply_groups_outside(toks: Seq<TokenDisplayView>, gs: Seq<GroupView>, n: int, k: int)
    requires
        0 <= k < toks.len(),
        0 <= n <= gs.len(),
        forall|q: int| 0 <= q < n ==> (#[trigger] gs[q]).head_index < group_end(gs[q]),
        forall|q: int| 0 <= q < n ==> !((#[trigger] gs[q]).head_index <= k < group_end(gs[q])),
    ensures
        apply_groups(toks, gs.take(n))[k] == toks[k],
    decreases n,
{
    if n > 0 {
        lemma_apply_groups_take(toks, gs, n);
        lemma_apply_groups_outside(toks, gs, n - 1, k);
        lemma_apply_groups_len(toks, gs.take(n - 1));
        assert(!(gs[n - 1].head_index <= k < group_end(gs[n - 1])));
    } else {
        assert(gs.take(0) =~= Seq::<GroupView>::empty());
    }
}

proof fn lemma_apply_groups_inside(toks: Seq<TokenDisplayView>, gs: Seq<GroupView>, n: int, q: int, k: int)
    requires
        groups_in_order(gs, toks.len() as int),
        0 <= q < n <= gs.len(),
        gs[q].head_index <= k < group_end(gs[q]),
    ensures
        apply_groups(toks, gs.take(n))[k] == apply_group(apply_groups(toks, gs.take(q)), gs[q])[k],
    decreases n,
{
    lemma_apply_groups_take(toks, gs, n);
    lemma_apply_groups_len(toks, gs.take(n - 1));
    if n - 1 > q {
        lemma_apply_groups_inside(toks, gs, n - 1, q, k);
        assert(group_end(gs[q]) <= gs[n - 1].head_index);
    }
}

/// The conjugation groups of a sentence mark their members as the tokens
/// were: each member of group `q` joins it, takes the status its head had,
/// and is no longer trivial; the head is also marked as the group's head and
/// carries its description. Its other fields are unchanged.
pub proof fn law_conjugation_groups_mark_their_members(toks: Seq<TokenDisplayView>, q: int, k: int)
    requires
        0 <= q < groups_from(grouping_view(toks), 0, 0).len(),
        groups_from(grouping_view(toks), 0, 0)[q].head_index <= k < group_end(
            groups_from(grouping_view(toks), 0, 0)[q],
        ),
    ensures
        ({
            let gs = groups_from(grouping_view(toks), 0, 0);
            let g = gs[q];
            let member = as_member(toks[k], g.group_id as usize, toks[g.head_index as int].vocabulary_status);
            &&& apply_groups(toks, gs).len() == toks.len()
            &&& apply_groups(toks, gs)[k] == if k == g.head_index {
                TokenDisplayView { is_group_head: true, conjugation_desc: g.description, ..member }
            } else {
                member
            }
        }),
{
    let gv = grouping_view(toks);
    let gs = groups_from(gv, 0, 0);
    law_conjugation_groups_well_formed(gv);
    assert(groups_in_order(gs, toks.len() as int)) by {
        assert forall|p: int| 0 <= p < gs.len() implies (#[trigger] gs[p]).head_index < group_end(gs[p])
            <= toks.len() by {
            assert(crate::conjugation::group_well_formed(gv, gs[p]));
        }
    }
    lemma_apply_groups_len(toks, gs);
    assert(gs.take(gs.len() as int) =~= gs);
    lemma_apply_groups_inside(toks, gs, gs.len() as int, q, k);
    let before = apply_groups(toks, gs.take(q));
    lemma_apply_groups_len(toks, gs.take(q));
    let h = gs[q].head_index as int;
    assert forall|p: int| 0 <= p < q implies !((#[trigger] gs[p]).head_index <= h < group_end(gs[p])) by {
        assert(group_end(gs[p]) <= gs[q].head_index);
    }
    assert forall|p: int| 0 <= p < q implies !((#[trigger] gs[p]).head_index <= k < group_end(gs[p])) by {
        assert(group_end(gs[p]) <= gs[q].head_index);
    }
    lemma_apply_groups_outside(toks, gs, q, h);
    lemma_apply_groups_outside(toks, gs, q, k);
}

/// The conjugation groups of a sentence leave the tokens outside them as
/// they were.
pub proof fn law_conjugation_groups_leave_other_tokens(toks: Seq<TokenDisplayView>, k: int)
    requires
        0 <= k < toks.len(),
        forall|q: int|
            0 <= q < groups_from(grouping_view(toks), 0, 0).len() ==> !((#[trigger] groups_from(
                grouping_view(toks),
                0,
                0,
            )[q]).head_index <= k < group_end(groups_from(grouping_view(toks), 0, 0)[q])),
    ensures
        apply_groups(toks, groups_from(grouping_view(toks), 0, 0))[k] == toks[k],
{
    let gv = grouping_view(toks);
    let gs = groups_from(gv, 0, 0);
    law_conjugation_groups_well_formed(gv);
    assert forall|p: int| 0 <= p < gs.len() implies (#[trigger] gs[p]).head_index < group_end(gs[p]) by {
        assert(crate::conjugation::group_well_formed(gv, gs[p]));
    }
    lemma_apply_groups_outside(toks, gs, gs.len() as int, k);
    assert(gs.take(gs.len() as int) =~= gs);
}

// ─── Multi-word expressions in the reader ───────────────────────────

/// The head of a multi-word expression spanning `start..end`: its first
/// non-trivial token among those that exist, or `start` when there is none.
pub open spec fn mwe_head(toks: Seq<TokenDisplayView>, start: int, end: int, from: int) -> int
    decreases end - from,
{
    if from >= end || from >= toks.len() || from < 0 {
        start
    } else if !toks[from].is_trivial {
        from
    } else {
        mwe_head(toks, start, end, from + 1)
    }
}

/// The tokens after one expression match is applied: the tokens it spans
/// join one group whose head is its first non-trivial token, take the head's
/// status and the expression's gloss, and lose any conjugation description;
/// the head is described as an expression.
pub open spec fn apply_mwe(toks: Seq<TokenDisplayView>, start: int, end: int, gloss: Seq<char>, gid: usize) -> Seq<
    TokenDisplayView,
> {
    let head = mwe_head(toks, start, end, start);
    let status = toks[head].vocabulary_status;
    Seq::new(
        toks.len(),
        |k: int|
            if start <= k < end {
                TokenDisplayView {
                    group_id: Some(gid),
                    is_group_head: k == head,
                    conjugation_desc: if k == head {
                        "expression"@
                    } else {
                        seq![]
                    },
                    mwe_gloss: gloss,
                    vocabulary_status: status,
                    is_trivial: false,
                    ..toks[k]
                }
            } else {
                toks[k]
            },
    )
}

/// The expression group number of the `i`th match; expression groups are
/// numbered from 10000 so that they never meet conjugation group numbers.
pub open spec fn mwe_group_id(i: int) -> usize {
    (10000 + i) as usize
}

/// The tokens after the first `n` matches are applied in order.
pub open spec fn apply_mwes(toks: Seq<TokenDisplayView>, ms: Seq<MweMatch>, n: int) -> Seq<TokenDisplayView>
    decreases n,
{
    if n <= 0 {
        toks
    } else {
        let m = ms[n - 1];
        apply_mwe(apply_mwes(toks, ms, n - 1), m.start as int, m.end as int, m.gloss@, mwe_group_id(n - 1))
    }
}

/// A match can be applied to `toks`: it starts at an existing token, and it
/// either ends within the tokens or has a non-trivial token among them.
pub open spec fn mwe_applicable(toks: Seq<TokenDisplayView>, m: MweMatch) -> bool {
    span_applicable(toks, m.start as int, m.end as int)
}

pub open spec fn span_applicable(toks: Seq<TokenDisplayView>, start: int, end: int) -> bool {
    &&& 0 <= start < toks.len()
    &&& (end <= toks.len() || exists|k: int| start <= k < toks.len() && !(#[trigger] toks[k]).is_trivial)
}

proof fn lemma_mwe_head(toks: Seq<TokenDisplayView>, start: int, end: int, from: int)
    requires
        0 <= start <= from,
        start < toks.len(),
        forall|k: int| start <= k < from && k < end && k < toks.len() ==> (#[trigger] toks[k]).is_trivial,
        end <= toks.len() || exists|k: int| start <= k < toks.len() && !(#[trigger] toks[k]).is_trivial,
    ensures
        start <= mwe_head(toks, start, end, from) < toks.len(),
        mwe_head(toks, start, end, from) < end || mwe_head(toks, start, end, from) == start,
    decreases end - from,
{
    if from >= end || from >= toks.len() {
        if end > toks.len() && from >= toks.len() {
            let k = choose|k: int| start <= k < toks.len() && !(#[trigger] toks[k]).is_trivial;
            assert(toks[k].is_trivial);
        }
    } else if toks[from].is_trivial {
        lemma_mwe_head(toks, start, end, from + 1);
    }
}

fn find_mwe_head(tokens: &Vec<TokenDisplay>, start: usize, end: usize) -> (h: usize)
    requires
        span_applicable(displays_view(tokens@), start as int, end as int),
    ensures
        h as int == mwe_head(displays_view(tokens@), start as int, end as int, start as int),
        start <= h < tokens@.len(),
        h < end || h == start,
{
    let ghost tv = displays_view(tokens@);
    let mut idx = start;
    while idx < end && idx < tokens.len()
        invariant
            start <= idx,
            tv == displays_view(tokens@),
            mwe_head(tv, start as int, end as int, start as int) == mwe_head(tv, start as int, end as int, idx as int),
            forall|k: int| start <= k < idx && k < end && k < tv.len() ==> (#[trigger] tv[k]).is_trivial,
        decreases tokens.len() - idx,
    {
        if !tokens[idx].is_trivial {
            proof {
                lemma_mwe_head(tv, start as int, end as int, start as int);
            }
            return idx;
        }
        assert(tv[idx as int].is_trivial);
        idx += 1;
    }
    proof {
        lemma_mwe_head(tv, start as int, end as int, start as int);
    }
    start
}

fn set_mwe_member(tokens: &mut Vec<TokenDisplay>, idx: usize, gid: usize, is_head: bool, gloss: &String, status: VocabularyStatus)
    requires
        idx < old(tokens)@.len(),
    ensures
        final(tokens)@.len() == old(tokens)@.len(),
        displays_view(final(tokens)@) == displays_view(old(tokens)@).update(
            idx as int,
            TokenDisplayView {
                group_id: Some(gid),
                is_group_head: is_head,
                conjugation_desc: if is_head {
                    "expression"@
                } else {
                    seq![]
                },
                mwe_gloss: gloss@,
                vocabulary_status: status,
                is_trivial: false,
                ..old(tokens)@[idx as int]@
            },
        ),
{
    let mut t = tokens.remove(idx);
    t.group_id = Some(gid);
    t.is_group_head = is_head;
    t.conjugation_desc = if is_head {
        String::from_str("expression")
    } else {
        String::new()
    };
    t.mwe_gloss = gloss.clone();
    t.vocabulary_status = status;
    t.is_trivial = false;
    tokens.insert(idx, t);
    assert(displays_view(tokens@) =~= displays_view(old(tokens)@).update(
        idx as int,
        TokenDisplayView {
            group_id: Some(gid),
            is_group_head: is_head,
            conjugation_desc: if is_head {
                "expression"@
            } else {
                seq![]
            },
            mwe_gloss: gloss@,
            vocabulary_status: status,
            is_trivial: false,
            ..old(tokens)@[idx as int]@
        },
    ));
}

fn apply_one_mwe(tokens: &mut Vec<TokenDisplay>, m: &MweMatch, gid: usize)
    requires
        mwe_applicable(displays_view(old(tokens)@), *m),
    ensures
        displays_view(final(tokens)@) == apply_mwe(displays_view(old(tokens)@), m.start as int, m.end as int, m.gloss@, gid),
{
    let ghost start = displays_view(tokens@);
    let head_idx = find_mwe_head(tokens, m.start, m.end);
    let head_status = tokens[head_idx].vocabulary_status;
    let ghost head = head_idx as int;
    let mut idx = m.start;
    while idx < m.end
        invariant
            m.start <= idx,
            start.len() == tokens@.len(),
            head == head_idx as int,
            head == mwe_head(start, m.start as int, m.end as int, m.start as int),
            head_status == start[head].vocabulary_status,
            forall|k: int|
                0 <= k < start.len() ==> #[trigger] displays_view(tokens@)[k] == if m.start <= k < idx && k
                    < m.end {
                    apply_mwe(start, m.start as int, m.end as int, m.gloss@, gid)[k]
                } else {
                    start[k]
                },
        ensures
            idx >= m.end || idx >= start.len(),
            forall|k: int|
                0 <= k < start.len() ==> #[trigger] displays_view(tokens@)[k] == if m.start <= k < idx && k
                    < m.end {
                    apply_mwe(start, m.start as int, m.end as int, m.gloss@, gid)[k]
                } else {
                    start[k]
                },
        decreases m.end - idx,
    {
        if idx >= tokens.len() {
            break;
        }
        let ghost before = displays_view(tokens@);
        assert(before[idx as int] == start[idx as int]);
        assert(before[idx as int] == tokens@[idx as int]@);
        set_mwe_member(tokens, idx, gid, idx == head_idx, &m.gloss, head_status);
        idx += 1;
        assert forall|k: int| 0 <= k < start.len() implies #[trigger] displays_view(tokens@)[k] == if m.start
            <= k < idx && k < m.end {
            apply_mwe(start, m.start as int, m.end as int, m.gloss@, gid)[k]
        } else {
            start[k]
        } by {
            if k != idx - 1 {
                assert(displays_view(tokens@)[k] == before[k]);
            }
        }
    }
    assert(displays_view(tokens@) =~= apply_mwe(start, m.start as int, m.end as int, m.gloss@, gid));
}

proof fn lemma_apply_mwe_keeps_nontrivial(toks: Seq<TokenDisplayView>, start: int, end: int, gloss: Seq<char>, gid: usize)
    ensures
        apply_mwe(toks, start, end, gloss, gid).len() == toks.len(),
        forall|k: int| 0 <= k < toks.len() && !(#[trigger] toks[k]).is_trivial ==> !apply_mwe(toks, start, end, gloss, gid)[k].is_trivial,
{
}

/// Apply expression matches to the tokens of a sentence, in order.
/// Expression groups override conjugation groups for overlapping tokens.
pub fn apply_mwe_matches(tokens: &mut Vec<TokenDisplay>, matches: &Vec<MweMatch>)
    requires
        matches@.len() <= usize::MAX - 10000,
        forall|i: int| 0 <= i < matches@.len() ==> mwe_applicable(displays_view(old(tokens)@), #[trigger] matches@[i]),
    ensures
        displays_view(final(tokens)@) == apply_mwes(displays_view(old(tokens)@), matches@, matches@.len() as int),
{
    let ghost start = displays_view(tokens@);
    let mut i: usize = 0;
    while i < matches.len()
        invariant
            i <= matches@.len() <= usize::MAX - 10000,
            start.len() == tokens@.len(),
            forall|j: int| 0 <= j < matches@.len() ==> mwe_applicable(start, #[trigger] matches@[j]),
            forall|k: int| 0 <= k < start.len() && !(#[trigger] start[k]).is_trivial ==> !displays_view(tokens@)[k].is_trivial,
            displays_view(tokens@) == apply_mwes(start, matches@, i as int),
        decreases matches.len() - i,
    {
        let m = &matches[i];
        let ghost cur = displays_view(tokens@);
        assert(mwe_applicable(start, matches@[i as int]));
        assert(mwe_applicable(cur, *m)) by {
            if m.end > start.len() {
                let k = choose|k: int| m.start <= k < start.len() && !(#[trigger] start[k]).is_trivial;
                assert(!cur[k].is_trivial);
            }
        }
        apply_one_mwe(tokens, m, 10000 + i);
        proof {
            lemma_apply_mwe_keeps_nontrivial(cur, m.start as int, m.end as int, m.gloss@, (10000 + i) as usize);
        }
        i += 1;
    }
}

/// The matches lie within `len` tokens, each spans at least one token, and
/// no two overlap.
pub open spec fn mwes_disjoint(ms: Seq<MweMatch>, len: int) -> bool {
    &&& forall|k: int| 0 <= k < ms.len() ==> (#[trigger] ms[k]).start < ms[k].end <= len
    &&& forall|a: int, b: int|
        0 <= a < b < ms.len() ==> (#[trigger] ms[a]).end <= (#[trigger] ms[b]).start || ms[b].end <= ms[a].start
}

proof fn lemma_apply_mwes_len(toks: Seq<TokenDisplayView>, ms: Seq<MweMatch>, n: int)
    ensures
        apply_mwes(toks, ms, n).len() == toks.len(),
    decreases n,
{
    if n > 0 {
        lemma_apply_mwes_len(toks, ms, n - 1);
    }
}

proof fn lemma_apply_mwes_outside(toks: Seq<TokenDisplayView>, ms: Seq<MweMatch>, n: int, i: int)
    requires
        0 <= i < toks.len(),
        n <= ms.len(),
        forall|k: int| 0 <= k < n ==> !((#[trigger] ms[k]).start <= i < ms[k].end),
    ensures
        apply_mwes(toks, ms, n)[i] == toks[i],
    decreases n,
{
    if n > 0 {
        lemma_apply_mwes_outside(toks, ms, n - 1, i);
        lemma_apply_mwes_len(toks, ms, n - 1);
        assert(!(ms[n - 1].start <= i < ms[n - 1].end));
    }
}

proof fn lemma_mwe_head_local(t1: Seq<TokenDisplayView>, t2: Seq<TokenDisplayView>, start: int, end: int, from: int)
    requires
        t1.len() == t2.len(),
        forall|j: int| start <= j < end && 0 <= j < t1.len() ==> (#[trigger] t1[j]).is_trivial == t2[j].is_trivial,
        start <= from,
    ensures
        mwe_head(t1, start, end, from) == mwe_head(t2, start, end, from),
    decreases end - from,
{
    if from < end && from < t1.len() && from >= 0 {
        lemma_mwe_head_local(t1, t2, start, end, from + 1);
    }
}

proof fn lemma_mwe_head_in_range(t: Seq<TokenDisplayView>, start: int, end: int, from: int)
    requires
        0 <= start <= from,
        start < end <= t.len(),
    ensures
        start <= mwe_head(t, start, end, from) < end,
    decreases end - from,
{
    if from < end && from < t.len() && t[from].is_trivial {
        lemma_mwe_head_in_range(t, start, end, from + 1);
    }
}

proof fn lemma_apply_mwes_inside(toks: Seq<TokenDisplayView>, ms: Seq<MweMatch>, n: int, k: int, i: int)
    requires
        mwes_disjoint(ms, toks.len() as int),
        0 <= k < n <= ms.len(),
        ms[k].start <= i < ms[k].end,
    ensures
        apply_mwes(toks, ms, n)[i] == apply_mwe(
            apply_mwes(toks, ms, k),
            ms[k].start as int,
            ms[k].end as int,
            ms[k].gloss@,
            mwe_group_id(k),
        )[i],
    decreases n,
{
    lemma_apply_mwes_len(toks, ms, n - 1);
    if n - 1 > k {
        lemma_apply_mwes_inside(toks, ms, n - 1, k, i);
        let m = ms[n - 1];
        assert(ms[k].end <= m.start || m.end <= ms[k].start);
    }
}

/// Expression matches that do not overlap each mark their own tokens as the
/// original tokens were: each token of match `k` joins group 10000 + `k`,
/// headed by the match's first non-trivial token (its first token when all
/// are trivial), and takes the head's status and the expression's gloss;
/// it is no longer trivial, and only the head is described as an
/// expression. Its other fields are unchanged.
pub proof fn law_expression_matches_mark_their_tokens(toks: Seq<TokenDisplayView>, ms: Seq<MweMatch>, k: int, i: int)
    requires
        mwes_disjoint(ms, toks.len() as int),
        0 <= k < ms.len(),
        ms[k].start <= i < ms[k].end,
    ensures
        ({
            let r = apply_mwes(toks, ms, ms.len() as int);
            let h = mwe_head(toks, ms[k].start as int, ms[k].end as int, ms[k].start as int);
            &&& r.len() == toks.len()
            &&& r[i] == (TokenDisplayView {
                group_id: Some(mwe_group_id(k)),
                is_group_head: i == h,
                conjugation_desc: if i == h {
                    "expression"@
                } else {
                    seq![]
                },
                mwe_gloss: ms[k].gloss@,
                vocabulary_status: toks[h].vocabulary_status,
                is_trivial: false,
                ..toks[i]
            })
        }),
{
    lemma_apply_mwes_len(toks, ms, ms.len() as int);
    lemma_apply_mwes_inside(toks, ms, ms.len() as int, k, i);
    let before = apply_mwes(toks, ms, k);
    lemma_apply_mwes_len(toks, ms, k);
    let s = ms[k].start as int;
    let e = ms[k].end as int;
    assert forall|j: int| s <= j < e implies #[trigger] before[j] == toks[j] by {
        assert forall|q: int| 0 <= q < k implies !((#[trigger] ms[q]).start <= j < ms[q].end) by {
            assert(ms[q].end <= ms[k].start || ms[k].end <= ms[q].start);
        }
        lemma_apply_mwes_outside(toks, ms, k, j);
    }
    lemma_mwe_head_local(before, toks, s, e, s);
    lemma_mwe_head_in_range(toks, s, e, s);
}

/// Expression matches that do not overlap leave the tokens outside them as
/// they were.
pub proof fn law_expression_matches_leave_other_tokens(toks: Seq<TokenDisplayView>, ms: Seq<MweMatch>, i: int)
    requires
        mwes_disjoint(ms, toks.len() as int),
        0 <= i < toks.len(),
        forall|k: int| 0 <= k < ms.len() ==> !((#[trigger] ms[k]).start <= i < ms[k].end),
    ensures
        apply_mwes(toks, ms, ms.len() as int)[i] == toks[i],
{
    lemma_apply_mwes_outside(toks, ms, ms.len() as int, i);
}

// ─── Finding multi-word expressions ─────────────────────────────────

/// The surfaces of the tokens `i..j` run together.
pub open spec fn window_surface(toks: Seq<TokenDisplayView>, i: int, j: int) -> Seq<char>
    decreases j - i,
{
    if j <= i {
        seq![]
    } else {
        window_surface(toks, i, j - 1) + toks[j - 1].surface
    }
}

/// The position of the first entry of `list` whose first text is `s`.
pub open spec fn first_with(list: Seq<(Seq<char>, Seq<char>, Seq<char>)>, s: Seq<char>, from: int) -> Option<int>
    decreases list.len() - from,
{
    if from < 0 || from >= list.len() {
        None
    } else if list[from].0 == s {
        Some(from)
    } else {
        first_with(list, s, from + 1)
    }
}

proof fn lemma_first_with(list: Seq<(Seq<char>, Seq<char>, Seq<char>)>, s: Seq<char>, from: int)
    ensures
        first_with(list, s, from) matches Some(k) ==> from <= k < list.len() && list[k].0 == s,
    decreases list.len() - from,
{
    if 0 <= from < list.len() && list[from].0 != s {
        lemma_first_with(list, s, from + 1);
    }
}

pub open spec fn user_expressions_view(v: Seq<UserExpression>) -> Seq<(Seq<char>, Seq<char>, Seq<char>)> {
    v.map_values(|u: UserExpression| (u.surface@, u.reading@, u.gloss@))
}

pub open spec fn expressions_view(v: Seq<(String, String, String)>) -> Seq<(Seq<char>, Seq<char>, Seq<char>)> {
    v.map_values(|e: (String, String, String)| (e.0@, e.1@, e.2@))
}

/// The reading and gloss of an expression text: from the user's expressions
/// first, else from the dictionary's.
pub open spec fn expression_info(
    users: Seq<(Seq<char>, Seq<char>, Seq<char>)>,
    dict: Seq<(Seq<char>, Seq<char>, Seq<char>)>,
    s: Seq<char>,
) -> Option<(Seq<char>, Seq<char>)> {
    match first_with(users, s, 0) {
        Some(k) => Some((users[k].1, users[k].2)),
        None => match first_with(dict, s, 0) {
            Some(k) => Some((dict[k].1, dict[k].2)),
            None => None,
        },
    }
}

/// The last window end `k` with `i + 1 < k <= j` whose tokens `i..k` form a
/// known expression: the longest expression starting at `i` that ends before `j`.
pub open spec fn longest_expression(
    toks: Seq<TokenDisplayView>,
    users: Seq<(Seq<char>, Seq<char>, Seq<char>)>,
    dict: Seq<(Seq<char>, Seq<char>, Seq<char>)>,
    i: int,
    j: int,
) -> Option<int>
    decreases j - i,
{
    if j <= i + 1 {
        None
    } else if expression_info(users, dict, window_surface(toks, i, j)) is Some {
        Some(j)
    } else {
        longest_expression(toks, users, dict, i, j - 1)
    }
}

pub struct MweMatchView {
    pub start: int,
    pub end: int,
    pub surface: Seq<char>,
    pub reading: Seq<char>,
    pub gloss: Seq<char>,
}

impl View for MweMatch {
    type V = MweMatchView;

    open spec fn view(&self) -> MweMatchView {
        MweMatchView {
            start: self.start as int,
            end: self.end as int,
            surface: self.surface@,
            reading: self.reading@,
            gloss: self.gloss@,
        }
    }
}

pub open spec fn matches_view(v: Seq<MweMatch>) -> Seq<MweMatchView> {
    v.map_values(|m: MweMatch| m@)
}

pub open spec fn window_end(len: int, i: int, max_window: int) -> int {
    if i + max_window < len {
        i + max_window
    } else {
        len
    }
}

/// The expressions found scanning from token `i`: at each position the
/// longest known expression of two or more tokens within the window starting
/// there; after a match the scan goes on past it.
pub open spec fn expressions_from(
    toks: Seq<TokenDisplayView>,
    users: Seq<(Seq<char>, Seq<char>, Seq<char>)>,
    dict: Seq<(Seq<char>, Seq<char>, Seq<char>)>,
    max_window: int,
    i: int,
) -> Seq<MweMatchView>
    decreases toks.len() - i,
{
    if i < 0 || i >= toks.len() {
        seq![]
    } else {
        match longest_expression(toks, users, dict, i, window_end(toks.len() as int, i, max_window)) {
            Some(k) => {
                if k <= i || k > toks.len() {
                    seq![]
                } else {
                    let s = window_surface(toks, i, k);
                    let info = expression_info(users, dict, s)->0;
                    seq![MweMatchView { start: i, end: k, surface: s, reading: info.0, gloss: info.1 }]
                        + expressions_from(toks, users, dict, max_window, k)
                }
            },
            None => expressions_from(toks, users, dict, max_window, i + 1),
        }
    }
}

proof fn lemma_longest_expression(
    toks: Seq<TokenDisplayView>,
    users: Seq<(Seq<char>, Seq<char>, Seq<char>)>,
    dict: Seq<(Seq<char>, Seq<char>, Seq<char>)>,
    i: int,
    j: int,
)
    ensures
        longest_expression(toks, users, dict, i, j) matches Some(k) ==> i + 1 < k <= j
            && expression_info(users, dict, window_surface(toks, i, k)) is Some,
    decreases j - i,
{
    if j > i + 1 && expression_info(users, dict, window_surface(toks, i, j)) is None {
        lemma_longest_expression(toks, users, dict, i, j - 1);
    }
}

fn find_user_expression(users: &Vec<UserExpression>, s: &str) -> (r: Option<usize>)
    ensures
        match r {
            Some(k) => first_with(user_expressions_view(users@), s@, 0) == Some(k as int),
            None => first_with(user_expressions_view(users@), s@, 0) is None,
        },
{
    let ghost uv = user_expressions_view(users@);
    let mut k: usize = 0;
    while k < users.len()
        invariant
            k <= users@.len(),
            uv == user_expressions_view(users@),
            first_with(uv, s@, 0) == first_with(uv, s@, k as int),
        decreases users.len() - k,
    {
        assert(uv[k as int].0 == users@[k as int].surface@);
        if str_eq(users[k].surface.as_str(), s) {
            return Some(k);
        }
        k += 1;
    }
    None
}

fn find_dictionary_expression(dict: &Vec<(String, String, String)>, s: &str) -> (r: Option<usize>)
    ensures
        match r {
            Some(k) => first_with(expressions_view(dict@), s@, 0) == Some(k as int),
            None => first_with(expressions_view(dict@), s@, 0) is None,
        },
{
    let ghost dv = expressions_view(dict@);
    let mut k: usize = 0;
    while k < dict.len()
        invariant
            k <= dict@.len(),
            dv == expressions_view(dict@),
            first_with(dv, s@, 0) == first_with(dv, s@, k as int),
        decreases dict.len() - k,
    {
        assert(dv[k as int].0 == dict@[k as int].0@);
        if str_eq(dict[k].0.as_str(), s) {
            return Some(k);
        }
        k += 1;
    }
    None
}

fn lookup_expression(users: &Vec<UserExpression>, dict: &Vec<(String, String, String)>, s: &str) -> (r: Option<
    (String, String),
>)
    ensures
        match r {
            Some(x) => expression_info(user_expressions_view(users@), expressions_view(dict@), s@) == Some(
                (x.0@, x.1@),
            ),
            None => expression_info(user_expressions_view(users@), expressions_view(dict@), s@) is None,
        },
{
    proof {
        lemma_first_with(user_expressions_view(users@), s@, 0);
        lemma_first_with(expressions_view(dict@), s@, 0);
    }
    match find_user_expression(users, s) {
        Some(k) => {
            assert(user_expressions_view(users@)[k as int] == (
                users@[k as int].surface@,
                users@[k as int].reading@,
                users@[k as int].gloss@,
            ));
            Some((users[k].reading.clone(), users[k].gloss.clone()))
        },
        None => match find_dictionary_expression(dict, s) {
            Some(k) => {
                assert(expressions_view(dict@)[k as int] == (dict@[k as int].0@, dict@[k as int].1@, dict@[k as int].2@));
                Some((dict[k].1.clone(), dict[k].2.clone()))
            },
            None => None,
        },
    }
}

/// Detect multi-word expressions in a sentence using a sliding window of at
/// most `max_window` tokens. The user's expressions take priority over the
/// dictionary's (`dictionary_expressions` holds the surface, reading and
/// gloss of each expression text the dictionary knows); at each position the
/// longest match wins.
pub fn detect_sentence_mwes(
    tokens: &Vec<TokenDisplay>,
    user_expressions: &Vec<UserExpression>,
    dictionary_expressions: &Vec<(String, String, String)>,
    max_window: usize,
) -> (r: Vec<MweMatch>)
    requires
        tokens@.len() + max_window <= usize::MAX,
    ensures
        matches_view(r@) == expressions_from(
            displays_view(tokens@),
            user_expressions_view(user_expressions@),
            expressions_view(dictionary_expressions@),
            max_window as int,
            0,
        ),
{
    let ghost tv = displays_view(tokens@);
    let ghost uv = user_expressions_view(user_expressions@);
    let ghost dv = expressions_view(dictionary_expressions@);
    let mut matches: Vec<MweMatch> = Vec::new();
    let mut i: usize = 0;
    while i < tokens.len()
        invariant
            tv == displays_view(tokens@),
            uv == user_expressions_view(user_expressions@),
            dv == expressions_view(dictionary_expressions@),
            tokens@.len() + max_window <= usize::MAX,
            i <= tokens@.len(),
            expressions_from(tv, uv, dv, max_window as int, 0) == matches_view(matches@)
                + expressions_from(tv, uv, dv, max_window as int, i as int),
        decreases tokens.len() - i,
    {
        let end = if i + max_window < tokens.len() {
            i + max_window
        } else {
            tokens.len()
        };
        let mut best: Option<MweMatch> = None;
        let mut combined = String::new();
        let mut j: usize = i;
        while j < end
            invariant
                tv == displays_view(tokens@),
                uv == user_expressions_view(user_expressions@),
                dv == expressions_view(dictionary_expressions@),
                i < tokens@.len(),
                i <= j <= end <= tokens@.len(),
                combined@ == window_surface(tv, i as int, j as int),
                match best {
                    Some(m) => longest_expression(tv, uv, dv, i as int, j as int) == Some(m.end as int)
                        && m@ == (MweMatchView {
                        start: i as int,
                        end: m.end as int,
                        surface: window_surface(tv, i as int, m.end as int),
                        reading: (expression_info(uv, dv, window_surface(tv, i as int, m.end as int))->0).0,
                        gloss: (expression_info(uv, dv, window_surface(tv, i as int, m.end as int))->0).1,
                    }),
                    None => longest_expression(tv, uv, dv, i as int, j as int) is None,
                },
            decreases end - j,
        {
            push_str(&mut combined, tokens[j].surface.as_str());
            j += 1;
            if j > i + 1 {
                match lookup_expression(user_expressions, dictionary_expressions, combined.as_str()) {
                    Some((reading, gloss)) => {
                        best = Some(
                            MweMatch { start: i, end: j, surface: combined.clone(), reading, gloss },
                        );
                    },
                    None => {},
                }
            }
        }
        proof {
            lemma_longest_expression(tv, uv, dv, i as int, end as int);
        }
        assert(end as int == window_end(tv.len() as int, i as int, max_window as int));
        match best {
            Some(m) => {
                let skip_to = m.end;
                let ghost mv = m@;
                let ghost prev = matches_view(matches@);
                matches.push(m);
                assert(matches_view(matches@) == prev.push(mv));
                i = skip_to;
            },
            None => {
                i += 1;
            },
        }
    }
    assert(matches_view(matches@) + expressions_from(tv, uv, dv, max_window as int, i as int) == matches_view(matches@));
    matches
}

// ─── Sentences of the reader ────────────────────────────────────────

/// Part-of-speech tags of tokens that the reader does not track as vocabulary.
pub open spec fn untracked_pos(pos: Seq<char>) -> bool {
    ||| pos == "Symbol"@
    ||| pos == "Punctuation"@
    ||| pos == "Whitespace"@
    ||| pos == "BOS/EOS"@
    ||| pos.len() == 0
    ||| pos == "Particle"@
    ||| pos == "Auxiliary"@
    ||| pos == "Conjunction"@
    ||| pos == "Prefix"@
}

/// A token not worth tracking as vocabulary in the reader: by its part of
/// speech, or because its surface is blank, numeric or plain ASCII.
pub open spec fn trivial_pos(pos: Seq<char>, surface: Seq<char>) -> bool {
    ||| untracked_pos(pos)
    ||| trim(surface).len() == 0
    ||| numeric_str(surface)
    ||| ascii_only_str(surface)
}

/// Check if a POS tag represents a trivial token (not worth tracking as vocabulary).
pub fn is_trivial_pos(pos: &str, surface: &str) -> (r: bool)
    ensures
        r == trivial_pos(pos@, surface@),
{
    (str_eq(pos, "Symbol") || str_eq(pos, "Punctuation") || str_eq(pos, "Whitespace") || str_eq(
        pos,
        "BOS/EOS",
    ) || pos.is_empty() || str_eq(pos, "Particle") || str_eq(pos, "Auxiliary") || str_eq(
        pos,
        "Conjunction",
    ) || str_eq(pos, "Prefix")) || is_blank(surface) || is_numeric(surface) || is_ascii_only(
        surface,
    )
}

pub open spec fn statuses_view(v: Seq<(String, String, VocabularyStatus)>) -> Seq<(Seq<char>, Seq<char>, VocabularyStatus)> {
    v.map_values(|e: (String, String, VocabularyStatus)| (e.0@, e.1@, e.2))
}

pub open spec fn glosses_view(v: Seq<(String, String)>) -> Seq<(Seq<char>, Seq<char>)> {
    v.map_values(|e: (String, String)| (e.0@, e.1@))
}

/// The status recorded for a word (base form and reading), if any; the first record wins.
pub open spec fn status_of_word(vs: Seq<(Seq<char>, Seq<char>, VocabularyStatus)>, base: Seq<char>, reading: Seq<char>, from: int) -> Option<VocabularyStatus>
    decreases vs.len() - from,
{
    if from < 0 || from >= vs.len() {
        None
    } else if vs[from].0 == base && vs[from].1 == reading {
        Some(vs[from].2)
    } else {
        status_of_word(vs, base, reading, from + 1)
    }
}

/// The gloss recorded for a base form, if any; the first record wins.
pub open spec fn gloss_of_word(gs: Seq<(Seq<char>, Seq<char>)>, base: Seq<char>, from: int) -> Option<Seq<char>>
    decreases gs.len() - from,
{
    if from < 0 || from >= gs.len() {
        None
    } else if gs[from].0 == base {
        Some(gs[from].1)
    } else {
        gloss_of_word(gs, base, from + 1)
    }
}

/// How a stored token is first displayed: with its word's status (New when
/// unknown), trivial when its part of speech says so or the word is ignored,
/// with its gloss unless trivial, with English conjugation names, and in no group.
pub open spec fn token_display(
    t: Token,
    vs: Seq<(Seq<char>, Seq<char>, VocabularyStatus)>,
    gs: Seq<(Seq<char>, Seq<char>)>,
) -> TokenDisplayView {
    let status = match status_of_word(vs, t.base_form@, t.reading@, 0) {
        Some(s) => s,
        None => VocabularyStatus::New,
    };
    let trivial = trivial_pos(t.pos@, t.surface@) || status == VocabularyStatus::Ignored;
    TokenDisplayView {
        surface: t.surface@,
        base_form: t.base_form@,
        reading: t.reading@,
        surface_reading: t.surface_reading@,
        pos: t.pos@,
        vocabulary_status: status,
        is_selected: false,
        short_gloss: if trivial {
            seq![]
        } else {
            match gloss_of_word(gs, t.base_form@, 0) {
                Some(g) => g,
                None => seq![],
            }
        },
        conjugation_form: conjugation_form_name(t.conjugation_form@),
        conjugation_type: conjugation_type_name(t.conjugation_type@),
        is_trivial: trivial,
        group_id: None,
        is_group_head: false,
        conjugation_desc: seq![],
        mwe_gloss: seq![],
    }
}

fn word_status(vs: &Vec<(String, String, VocabularyStatus)>, base: &str, reading: &str) -> (r: Option<VocabularyStatus>)
    ensures
        r == status_of_word(statuses_view(vs@), base@, reading@, 0),
{
    let ghost vv = statuses_view(vs@);
    let mut k: usize = 0;
    while k < vs.len()
        invariant
            k <= vs@.len(),
            vv == statuses_view(vs@),
            status_of_word(vv, base@, reading@, 0) == status_of_word(vv, base@, reading@, k as int),
        decreases vs.len() - k,
    {
        assert(vv[k as int] == (vs@[k as int].0@, vs@[k as int].1@, vs@[k as int].2));
        if str_eq(vs[k].0.as_str(), base) && str_eq(vs[k].1.as_str(), reading) {
            return Some(vs[k].2);
        }
        k += 1;
    }
    None
}

fn word_gloss(gs: &Vec<(String, String)>, base: &str) -> (r: Option<String>)
    ensures
        match r {
            Some(g) => gloss_of_word(glosses_view(gs@), base@, 0) == Some(g@),
            None => gloss_of_word(glosses_view(gs@), base@, 0) is None,
        },
{
    let ghost gv = glosses_view(gs@);
    let mut k: usize = 0;
    while k < gs.len()
        invariant
            k <= gs@.len(),
            gv == glosses_view(gs@),
            gloss_of_word(gv, base@, 0) == gloss_of_word(gv, base@, k as int),
        decreases gs.len() - k,
    {
        assert(gv[k as int] == (gs@[k as int].0@, gs@[k as int].1@));
        if str_eq(gs[k].0.as_str(), base) {
            return Some(gs[k].1.clone());
        }
        k += 1;
    }
    None
}

fn display_token(t: &Token, vs: &Vec<(String, String, VocabularyStatus)>, gs: &Vec<(String, String)>) -> (r: TokenDisplay)
    ensures
        r@ == token_display(*t, statuses_view(vs@), glosses_view(gs@)),
{
    let status = match word_status(vs, t.base_form.as_str(), t.reading.as_str()) {
        Some(s) => s,
        None => VocabularyStatus::New,
    };
    let ignored = match status {
        VocabularyStatus::Ignored => true,
        _ => false,
    };
    let is_trivial = is_trivial_pos(t.pos.as_str(), t.surface.as_str()) || ignored;
    let short_gloss = if !is_trivial {
        match word_gloss(gs, t.base_form.as_str()) {
            Some(g) => g,
            None => String::new(),
        }
    } else {
        String::new()
    };
    TokenDisplay {
        surface: t.surface.clone(),
        base_form: t.base_form.clone(),
        reading: t.reading.clone(),
        surface_reading: t.surface_reading.clone(),
        pos: t.pos.clone(),
        vocabulary_status: status,
        is_selected: false,
        short_gloss,
        conjugation_form: translate_conjugation_form(t.conjugation_form.as_str()),
        conjugation_type: translate_conjugation_type(t.conjugation_type.as_str()),
        is_trivial,
        group_id: None,
        is_group_head: false,
        conjugation_desc: String::new(),
        mwe_gloss: String::new(),
    }
}

/// The first position at or after `j` whose sentence number is not `idx`, or the end.
pub open spec fn run_end(toks: Seq<Token>, idx: i32, j: int) -> int
    decreases toks.len() - j,
{
    if j < 0 || j >= toks.len() {
        toks.len() as int
    } else if toks[j].sentence_index != idx {
        j
    } else {
        run_end(toks, idx, j + 1)
    }
}

proof fn lemma_run_end(toks: Seq<Token>, idx: i32, j: int)
    requires
        0 <= j <= toks.len(),
    ensures
        j <= run_end(toks, idx, j) <= toks.len(),
    decreases toks.len() - j,
{
    if j < toks.len() && toks[j].sentence_index == idx {
        lemma_run_end(toks, idx, j + 1);
    }
}

/// The displayed tokens `a..b`, before grouping.
pub open spec fn displays_of(
    toks: Seq<Token>,
    vs: Seq<(Seq<char>, Seq<char>, VocabularyStatus)>,
    gs: Seq<(Seq<char>, Seq<char>)>,
    a: int,
    b: int,
) -> Seq<TokenDisplayView> {
    Seq::new((b - a) as nat, |k: int| token_display(toks[a + k], vs, gs))
}

/// The surfaces of the displayed tokens run together.
pub open spec fn surfaces_text(v: Seq<TokenDisplayView>) -> Seq<char>
    decreases v.len(),
{
    if v.len() == 0 {
        seq![]
    } else {
        surfaces_text(v.drop_last()) + v.last().surface
    }
}

pub struct SentenceView {
    pub paragraph_idx: int,
    pub start_token: int,
    pub end_token: int,
    pub tokens: Seq<TokenDisplayView>,
    pub text: Seq<char>,
}

impl View for SentenceData {
    type V = SentenceView;

    open spec fn view(&self) -> SentenceView {
        SentenceView {
            paragraph_idx: self.paragraph_idx as int,
            start_token: self.start_token as int,
            end_token: self.end_token as int,
            tokens: displays_view(self.tokens@),
            text: self.text@,
        }
    }
}

pub open spec fn sentences_view(v: Seq<SentenceData>) -> Seq<SentenceView> {
    v.map_values(|s: SentenceData| s@)
}

/// The sentence of tokens `a..b` of paragraph `p`: the tokens as displayed,
/// then grouped into conjugation groups; its text is their surfaces.
pub open spec fn sentence_of(
    toks: Seq<Token>,
    vs: Seq<(Seq<char>, Seq<char>, VocabularyStatus)>,
    gs: Seq<(Seq<char>, Seq<char>)>,
    p: int,
    a: int,
    b: int,
) -> SentenceView {
    let d = displays_of(toks, vs, gs, a, b);
    SentenceView {
        paragraph_idx: p,
        start_token: a,
        end_token: b,
        tokens: apply_groups(d, groups_from(grouping_view(d), 0, 0)),
        text: surfaces_text(d),
    }
}

/// The sentences of paragraph `p` from token `a` on: each run of consecutive
/// tokens with the same sentence number is one sentence.
pub open spec fn paragraph_sentences(
    toks: Seq<Token>,
    vs: Seq<(Seq<char>, Seq<char>, VocabularyStatus)>,
    gs: Seq<(Seq<char>, Seq<char>)>,
    p: int,
    a: int,
) -> Seq<SentenceView>
    decreases toks.len() - a,
{
    if a < 0 || a >= toks.len() {
        seq![]
    } else {
        let b = run_end(toks, toks[a].sentence_index, a + 1);
        if b <= a || b > toks.len() {
            seq![]
        } else {
            seq![sentence_of(toks, vs, gs, p, a, b)] + paragraph_sentences(toks, vs, gs, p, b)
        }
    }
}

/// The sentences of the first `n` paragraphs, in order.
pub open spec fn text_sentences(
    paras: Seq<ParagraphData>,
    vs: Seq<(Seq<char>, Seq<char>, VocabularyStatus)>,
    gs: Seq<(Seq<char>, Seq<char>)>,
    n: int,
) -> Seq<SentenceView>
    decreases n,
{
    if n <= 0 {
        seq![]
    } else {
        text_sentences(paras, vs, gs, n - 1) + paragraph_sentences(paras[n - 1].db_tokens@, vs, gs, n - 1, 0)
    }
}

fn make_sentence(paragraph_idx: usize, start_token: usize, end_token: usize, tokens: Vec<TokenDisplay>) -> (r: SentenceData)
    ensures
        r@ == (SentenceView {
            paragraph_idx: paragraph_idx as int,
            start_token: start_token as int,
            end_token: end_token as int,
            tokens: apply_groups(
                displays_view(tokens@),
                groups_from(grouping_view(displays_view(tokens@)), 0, 0),
            ),
            text: surfaces_text(displays_view(tokens@)),
        }),
{
    let ghost d = displays_view(tokens@);
    let mut text = String::new();
    let mut k: usize = 0;
    while k < tokens.len()
        invariant
            k <= tokens@.len(),
            d == displays_view(tokens@),
            text@ == surfaces_text(d.take(k as int)),
        decreases tokens.len() - k,
    {
        push_str(&mut text, tokens[k].surface.as_str());
        k += 1;
        assert(d.take(k as int).drop_last() == d.take(k - 1));
    }
    assert(d.take(k as int) == d);
    let mut tokens = tokens;
    apply_conjugation_groups(&mut tokens);
    SentenceData { paragraph_idx, start_token, end_token, tokens, text }
}

fn paragraph_sentences_exec(
    out: &mut Vec<SentenceData>,
    para_idx: usize,
    toks: &Vec<Token>,
    vs: &Vec<(String, String, VocabularyStatus)>,
    gs: &Vec<(String, String)>,
)
    ensures
        sentences_view(final(out)@) == sentences_view(old(out)@) + paragraph_sentences(
            toks@,
            statuses_view(vs@),
            glosses_view(gs@),
            para_idx as int,
            0,
        ),
{
    let ghost vv = statuses_view(vs@);
    let ghost gv = glosses_view(gs@);
    let ghost base = sentences_view(out@);
    if toks.len() == 0 {
        assert(sentences_view(out@) == base + Seq::<SentenceView>::empty());
        return;
    }
    let mut current_idx = toks[0].sentence_index;
    let mut current: Vec<TokenDisplay> = Vec::new();
    let mut start_token: usize = 0;
    let mut i: usize = 0;
    while i < toks.len()
        invariant
            vv == statuses_view(vs@),
            gv == glosses_view(gs@),
            0 < toks@.len(),
            start_token <= i <= toks@.len(),
            start_token < toks@.len(),
            current_idx == toks@[start_token as int].sentence_index,
            run_end(toks@, current_idx, start_token + 1) == run_end(toks@, current_idx, i as int) || i
                == start_token,
            displays_view(current@) == displays_of(toks@, vv, gv, start_token as int, i as int),
            base + paragraph_sentences(toks@, vv, gv, para_idx as int, 0) == sentences_view(out@)
                + paragraph_sentences(toks@, vv, gv, para_idx as int, start_token as int),
        decreases toks.len() - i,
    {
        if toks[i].sentence_index != current_idx {
            proof {
                lemma_run_end(toks@, current_idx, start_token + 1);
                assert(run_end(toks@, current_idx, i as int) == i);
            }
            let ghost prev = sentences_view(out@);
            let mut taken: Vec<TokenDisplay> = Vec::new();
            std::mem::swap(&mut taken, &mut current);
            let sent = make_sentence(para_idx, start_token, i, taken);
            out.push(sent);
            assert(sentences_view(out@) == prev.push(sent@));
            assert(paragraph_sentences(toks@, vv, gv, para_idx as int, start_token as int) == seq![
                sentence_of(toks@, vv, gv, para_idx as int, start_token as int, i as int)]
                + paragraph_sentences(toks@, vv, gv, para_idx as int, i as int));
            start_token = i;
            current_idx = toks[i].sentence_index;
            assert(displays_view(current@) =~= displays_of(toks@, vv, gv, start_token as int, i as int));
        }
        let d = display_token(&toks[i], vs, gs);
        let ghost before = displays_view(current@);
        current.push(d);
        i += 1;
        assert(displays_view(current@) =~= displays_of(toks@, vv, gv, start_token as int, i as int)) by {
            assert(displays_view(current@) == before.push(d@));
        }
        proof {
            if i - 1 > start_token {
                assert(toks@[i - 1].sentence_index == current_idx);
            } else {
                assert(i - 1 == start_token);
            }
        }
    }
    proof {
        lemma_run_end(toks@, current_idx, start_token + 1);
    }
    let ghost prev = sentences_view(out@);
    let sent = make_sentence(para_idx, start_token, toks.len(), current);
    out.push(sent);
    assert(sentences_view(out@) == prev.push(sent@));
    assert(paragraph_sentences(toks@, vv, gv, para_idx as int, start_token as int) == seq![
        sentence_of(toks@, vv, gv, para_idx as int, start_token as int, toks@.len() as int)]
        + paragraph_sentences(toks@, vv, gv, para_idx as int, toks@.len() as int));
}

/// Build the reader's sentences from stored paragraphs: the tokens of each
/// paragraph are split where their sentence number changes, displayed with
/// their word's status (from `vocabulary`: base form, reading, status) and
/// gloss (from `glosses`: base form, gloss), and grouped into conjugation groups.
pub fn build_sentences(
    paragraphs: &Vec<ParagraphData>,
    vocabulary: &Vec<(String, String, VocabularyStatus)>,
    glosses: &Vec<(String, String)>,
) -> (r: Vec<SentenceData>)
    ensures
        sentences_view(r@) == text_sentences(
            paragraphs@,
            statuses_view(vocabulary@),
            glosses_view(glosses@),
            paragraphs@.len() as int,
        ),
{
    let mut sentences: Vec<SentenceData> = Vec::new();
    let mut p: usize = 0;
    while p < paragraphs.len()
        invariant
            p <= paragraphs@.len(),
            sentences_view(sentences@) == text_sentences(
                paragraphs@,
                statuses_view(vocabulary@),
                glosses_view(glosses@),
                p as int,
            ),
        decreases paragraphs.len() - p,
    {
        paragraph_sentences_exec(&mut sentences, p, &paragraphs[p].db_tokens, vocabulary, glosses);
        p += 1;
    }
    sentences
}

// ─── Laws of the reader ─────────────────────────────────────────────

proof fn lemma_expressions_from(
    toks: Seq<TokenDisplayView>,
    users: Seq<(Seq<char>, Seq<char>, Seq<char>)>,
    dict: Seq<(Seq<char>, Seq<char>, Seq<char>)>,
    max_window: int,
    i: int,
)
    requires
        0 <= i,
    ensures
        forall|k: int|
            0 <= k < expressions_from(toks, users, dict, max_window, i).len() ==> {
                let m = #[trigger] expressions_from(toks, users, dict, max_window, i)[k];
                &&& i <= m.start
                &&& m.start + 2 <= m.end <= toks.len()
                &&& m.end - m.start <= max_window
                &&& m.surface == window_surface(toks, m.start, m.end)
                &&& expression_info(users, dict, m.surface) == Some((m.reading, m.gloss))
            },
        forall|k1: int, k2: int|
            0 <= k1 < k2 < expressions_from(toks, users, dict, max_window, i).len() ==> (
            #[trigger] expressions_from(toks, users, dict, max_window, i)[k1]).end <= (
            #[trigger] expressions_from(toks, users, dict, max_window, i)[k2]).start,
    decreases toks.len() - i,
{
    if i < toks.len() {
        let we = window_end(toks.len() as int, i, max_window);
        lemma_longest_expression(toks, users, dict, i, we);
        match longest_expression(toks, users, dict, i, we) {
            Some(k) => {
                if !(k <= i || k > toks.len()) {
                    lemma_expressions_from(toks, users, dict, max_window, k);
                    let s = window_surface(toks, i, k);
                    let info = expression_info(users, dict, s)->0;
                    let m0 = MweMatchView { start: i, end: k, surface: s, reading: info.0, gloss: info.1 };
                    let rest = expressions_from(toks, users, dict, max_window, k);
                    assert(expressions_from(toks, users, dict, max_window, i) == seq![m0] + rest);
                    assert forall|j: int| 0 <= j < (seq![m0] + rest).len() implies {
                        let m = #[trigger] (seq![m0] + rest)[j];
                        &&& i <= m.start
                        &&& m.start + 2 <= m.end <= toks.len()
                        &&& m.end - m.start <= max_window
                        &&& m.surface == window_surface(toks, m.start, m.end)
                        &&& expression_info(users, dict, m.surface) == Some((m.reading, m.gloss))
                    } by {
                        if j > 0 {
                            assert((seq![m0] + rest)[j] == rest[j - 1]);
                        }
                    }
                    assert forall|k1: int, k2: int| 0 <= k1 < k2 < (seq![m0] + rest).len() implies (
                    #[trigger] (seq![m0] + rest)[k1]).end <= (#[trigger] (seq![m0] + rest)[k2]).start by {
                        assert((seq![m0] + rest)[k2] == rest[k2 - 1]);
                        if k1 > 0 {
                            assert((seq![m0] + rest)[k1] == rest[k1 - 1]);
                        }
                    }
                }
            },
            None => {
                lemma_expressions_from(toks, users, dict, max_window, i + 1);
            },
        }
    }
}

/// Expressions found in a sentence are of two tokens or more, fit in the
/// window, lie within the sentence in order without overlapping, and carry
/// the surface of their tokens with the reading and gloss known for it.
pub proof fn law_expressions_are_ordered_and_disjoint(
    toks: Seq<TokenDisplayView>,
    users: Seq<(Seq<char>, Seq<char>, Seq<char>)>,
    dict: Seq<(Seq<char>, Seq<char>, Seq<char>)>,
    max_window: int,
)
    ensures
        forall|k: int|
            0 <= k < expressions_from(toks, users, dict, max_window, 0).len() ==> {
                let m = #[trigger] expressions_from(toks, users, dict, max_window, 0)[k];
                &&& 0 <= m.start
                &&& m.start + 2 <= m.end <= toks.len()
                &&& m.end - m.start <= max_window
                &&& m.surface == window_surface(toks, m.start, m.end)
                &&& expression_info(users, dict, m.surface) == Some((m.reading, m.gloss))
            },
        forall|k1: int, k2: int|
            0 <= k1 < k2 < expressions_from(toks, users, dict, max_window, 0).len() ==> (
            #[trigger] expressions_from(toks, users, dict, max_window, 0)[k1]).end <= (
            #[trigger] expressions_from(toks, users, dict, max_window, 0)[k2]).start,
{
    lemma_expressions_from(toks, users, dict, max_window, 0);
}

proof fn lemma_paragraph_sentences(
    toks: Seq<Token>,
    vs: Seq<(Seq<char>, Seq<char>, VocabularyStatus)>,
    gs: Seq<(Seq<char>, Seq<char>)>,
    p: int,
    a: int,
)
    requires
        0 <= a <= toks.len(),
    ensures
        a < toks.len() ==> paragraph_sentences(toks, vs, gs, p, a).len() > 0,
        a < toks.len() ==> paragraph_sentences(toks, vs, gs, p, a)[0].start_token == a,
        a < toks.len() ==> paragraph_sentences(toks, vs, gs, p, a).last().end_token == toks.len(),
        forall|k: int|
            0 <= k < paragraph_sentences(toks, vs, gs, p, a).len() ==> {
                let s = #[trigger] paragraph_sentences(toks, vs, gs, p, a)[k];
                &&& s.paragraph_idx == p
                &&& a <= s.start_token < s.end_token <= toks.len()
                &&& forall|j: int| s.start_token <= j < s.end_token ==> (#[trigger] toks[j]).sentence_index
                    == toks[s.start_token].sentence_index
                &&& (s.end_token == toks.len() || toks[s.end_token].sentence_index
                    != toks[s.start_token].sentence_index)
            },
        forall|k: int|
            0 <= k < paragraph_sentences(toks, vs, gs, p, a).len() - 1 ==> (
            #[trigger] paragraph_sentences(toks, vs, gs, p, a)[k]).end_token == paragraph_sentences(
                toks,
                vs,
                gs,
                p,
                a,
            )[k + 1].start_token,
    decreases toks.len() - a,
{
    if a < toks.len() {
        let idx = toks[a].sentence_index;
        lemma_run_end(toks, idx, a + 1);
        lemma_run_end_same(toks, idx, a + 1);
        let b = run_end(toks, idx, a + 1);
        lemma_paragraph_sentences(toks, vs, gs, p, b);
        let s0 = sentence_of(toks, vs, gs, p, a, b);
        let rest = paragraph_sentences(toks, vs, gs, p, b);
        let all = seq![s0] + rest;
        assert(paragraph_sentences(toks, vs, gs, p, a) == all);
        assert forall|k: int| 0 <= k < all.len() implies {
            let s = #[trigger] all[k];
            &&& s.paragraph_idx == p
            &&& a <= s.start_token < s.end_token <= toks.len()
            &&& forall|j: int| s.start_token <= j < s.end_token ==> (#[trigger] toks[j]).sentence_index
                == toks[s.start_token].sentence_index
            &&& (s.end_token == toks.len() || toks[s.end_token].sentence_index
                != toks[s.start_token].sentence_index)
        } by {
            if k > 0 {
                assert(all[k] == rest[k - 1]);
            }
        }
        assert forall|k: int| 0 <= k < all.len() - 1 implies (#[trigger] all[k]).end_token
            == all[k + 1].start_token by {
            assert(all[k + 1] == rest[k]);
            if k > 0 {
                assert(all[k] == rest[k - 1]);
            }
        }
        if rest.len() > 0 {
            assert(all.last() == rest.last());
        }
    }
}

proof fn lemma_run_end_same(toks: Seq<Token>, idx: i32, j: int)
    requires
        0 <= j <= toks.len(),
    ensures
        forall|k: int| j <= k < run_end(toks, idx, j) ==> toks[k].sentence_index == idx,
        run_end(toks, idx, j) == toks.len() || toks[run_end(toks, idx, j)].sentence_index != idx,
    decreases toks.len() - j,
{
    if j < toks.len() && toks[j].sentence_index == idx {
        lemma_run_end_same(toks, idx, j + 1);
    }
}

/// The sentences of a paragraph cover its tokens from first to last: the
/// first starts at token 0, each ends where the next starts, the last ends
/// at the last token; each holds a maximal run of tokens with the same
/// sentence number.
pub proof fn law_paragraph_sentences_cover_tokens(
    toks: Seq<Token>,
    vs: Seq<(Seq<char>, Seq<char>, VocabularyStatus)>,
    gs: Seq<(Seq<char>, Seq<char>)>,
    p: int,
)
    ensures
        toks.len() > 0 ==> paragraph_sentences(toks, vs, gs, p, 0).len() > 0
            && paragraph_sentences(toks, vs, gs, p, 0)[0].start_token == 0
            && paragraph_sentences(toks, vs, gs, p, 0).last().end_token == toks.len(),
        toks.len() == 0 ==> paragraph_sentences(toks, vs, gs, p, 0).len() == 0,
        forall|k: int|
            0 <= k < paragraph_sentences(toks, vs, gs, p, 0).len() ==> {
                let s = #[trigger] paragraph_sentences(toks, vs, gs, p, 0)[k];
                &&& s.paragraph_idx == p
                &&& 0 <= s.start_token < s.end_token <= toks.len()
                &&& forall|j: int| s.start_token <= j < s.end_token ==> (#[trigger] toks[j]).sentence_index
                    == toks[s.start_token].sentence_index
                &&& (s.end_token == toks.len() || toks[s.end_token].sentence_index
                    != toks[s.start_token].sentence_index)
            },
        forall|k: int|
            0 <= k < paragraph_sentences(toks, vs, gs, p, 0).len() - 1 ==> (
            #[trigger] paragraph_sentences(toks, vs, gs, p, 0)[k]).end_token == paragraph_sentences(
                toks,
                vs,
                gs,
                p,
                0,
            )[k + 1].start_token,
{
    lemma_paragraph_sentences(toks, vs, gs, p, 0);
}

proof fn lemma_apply_groups_keeps_surfaces(toks: Seq<TokenDisplayView>, gs: Seq<GroupView>)
    ensures
        apply_groups(toks, gs).len() == toks.len(),
        forall|k: int| 0 <= k < toks.len() ==> (#[trigger] apply_groups(toks, gs)[k]).surface == toks[k].surface,
    decreases gs.len(),
{
    lemma_apply_groups_len(toks, gs);
    if gs.len() > 0 {
        lemma_apply_groups_keeps_surfaces(toks, gs.drop_last());
        let before = apply_groups(toks, gs.drop_last());
        assert forall|k: int| 0 <= k < toks.len() implies (#[trigger] apply_groups(toks, gs)[k]).surface
            == toks[k].surface by {
            assert(apply_groups(toks, gs)[k].surface == before[k].surface);
        }
    }
}

proof fn lemma_surfaces_text_same(v1: Seq<TokenDisplayView>, v2: Seq<TokenDisplayView>)
    requires
        v1.len() == v2.len(),
        forall|k: int| 0 <= k < v1.len() ==> (#[trigger] v1[k]).surface == v2[k].surface,
    ensures
        surfaces_text(v1) == surfaces_text(v2),
    decreases v1.len(),
{
    if v1.len() > 0 {
        lemma_surfaces_text_same(v1.drop_last(), v2.drop_last());
        assert(v1.last().surface == v2.last().surface);
    }
}

/// A sentence built from tokens `a..b` of a paragraph holds one token per
/// stored token, with the stored token's surface, in order, and its text is
/// its tokens' surfaces run together.
pub proof fn law_sentence_tokens_keep_their_surfaces(
    toks: Seq<Token>,
    vs: Seq<(Seq<char>, Seq<char>, VocabularyStatus)>,
    gs: Seq<(Seq<char>, Seq<char>)>,
    p: int,
    a: int,
    b: int,
)
    requires
        0 <= a <= b <= toks.len(),
    ensures
        ({
            let s = sentence_of(toks, vs, gs, p, a, b);
            &&& s.tokens.len() == b - a
            &&& forall|k: int| 0 <= k < b - a ==> (#[trigger] s.tokens[k]).surface == toks[a + k].surface@
            &&& s.text == surfaces_text(s.tokens)
        }),
{
    let d = displays_of(toks, vs, gs, a, b);
    let g = groups_from(grouping_view(d), 0, 0);
    lemma_apply_groups_keeps_surfaces(d, g);
    let t = apply_groups(d, g);
    assert forall|k: int| 0 <= k < b - a implies (#[trigger] t[k]).surface == toks[a + k].surface@ by {
        assert(d[k] == token_display(toks[a + k], vs, gs));
    }
    lemma_surfaces_text_same(d, t);
}

// ─── The words to look up ───────────────────────────────────────────

/// `acc` followed by the base forms of the words among `toks` that it does
/// not hold yet, each once, in the order met; trivial tokens are passed over.
pub open spec fn forms_after(acc: Seq<Seq<char>>, toks: Seq<Token>) -> Seq<Seq<char>>
    decreases toks.len(),
{
    if toks.len() == 0 {
        acc
    } else {
        let prev = forms_after(acc, toks.drop_last());
        let t = toks.last();
        if !trivial_pos(t.pos@, t.surface@) && !prev.contains(t.base_form@) {
            prev.push(t.base_form@)
        } else {
            prev
        }
    }
}

/// The base forms of the words of the first `n` paragraphs, each once.
pub open spec fn paragraph_forms(ps: Seq<ParagraphData>, n: int) -> Seq<Seq<char>>
    decreases n,
{
    if n <= 0 || n > ps.len() {
        Seq::empty()
    } else {
        forms_after(paragraph_forms(ps, n - 1), ps[n - 1].db_tokens@)
    }
}

/// Whether `v` holds the string `s`.
fn holds_string(v: &Vec<String>, s: &str) -> (r: bool)
    ensures
        r == strings_view(v@).contains(s@),
{
    let mut k: usize = 0;
    while k < v.len()
        invariant
            k <= v@.len(),
            forall|j: int| 0 <= j < k ==> v@[j]@ != s@,
        decreases v.len() - k,
    {
        if str_eq(v[k].as_str(), s) {
            assert(strings_view(v@)[k as int] == s@);
            return true;
        }
        k += 1;
    }
    assert forall|j: int| 0 <= j < strings_view(v@).len() implies strings_view(v@)[j] != s@ by {
        assert(strings_view(v@)[j] == v@[j]@);
    }
    false
}

/// The base forms whose short glosses a text needs: those of its words,
/// each once, in the order of the text, trivial tokens passed over.
pub fn gloss_forms(paragraphs: &Vec<ParagraphData>) -> (r: Vec<String>)
    ensures
        strings_view(r@) == paragraph_forms(paragraphs@, paragraphs@.len() as int),
{
    let mut out: Vec<String> = Vec::new();
    let mut p: usize = 0;
    while p < paragraphs.len()
        invariant
            p <= paragraphs@.len(),
            strings_view(out@) == paragraph_forms(paragraphs@, p as int),
        decreases paragraphs.len() - p,
    {
        let toks = &paragraphs[p].db_tokens;
        let ghost start = strings_view(out@);
        let mut i: usize = 0;
        while i < toks.len()
            invariant
                i <= toks@.len(),
                toks@ == paragraphs@[p as int].db_tokens@,
                strings_view(out@) == forms_after(start, toks@.take(i as int)),
            decreases toks.len() - i,
        {
            let t = &toks[i];
            proof {
                assert(toks@.take(i + 1).drop_last() =~= toks@.take(i as int));
                assert(toks@.take(i + 1).last() == *t);
            }
            if !is_trivial_pos(t.pos.as_str(), t.surface.as_str()) && !holds_string(&out, t.base_form.as_str()) {
                let ghost prev = out@;
                out.push(t.base_form.clone());
                assert(strings_view(out@) =~= strings_view(prev).push(t.base_form@));
            }
            i += 1;
        }
        assert(toks@.take(i as int) =~= toks@);
        p += 1;
    }
    out
}

} // verus!
