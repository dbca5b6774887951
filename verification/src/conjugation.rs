//! Conjugation grouping: a verb or adjective head together with the
//! auxiliaries that directly follow it, and an English description of the
//! resulting inflection ("verb, negative, past").
use vstd::prelude::*;

use crate::text::{join, push_str, starts_with, str_eq, str_starts_with};

verus! {

/// Minimal token info needed for conjugation grouping.
pub struct GroupToken<'a> {
    pub pos: &'a str,
    pub base_form: &'a str,
    /// Raw UniDic conjugation form, already translated to English (e.g. "irrealis (general)").
    pub conjugation_form: &'a str,
}

/// The texts of a [`GroupToken`].
pub struct GroupTokenView {
    pub pos: Seq<char>,
    pub base_form: Seq<char>,
    pub conjugation_form: Seq<char>,
}

pub open spec fn gt_view(t: GroupToken) -> GroupTokenView {
    GroupTokenView { pos: t.pos@, base_form: t.base_form@, conjugation_form: t.conjugation_form@ }
}

pub open spec fn gt_views(toks: Seq<GroupToken>) -> Seq<GroupTokenView> {
    toks.map_values(|t: GroupToken| gt_view(t))
}

/// Result of conjugation group assignment for a single group.
#[derive(Debug, Clone)]
pub struct ConjugationGroup {
    /// Unique group index within the sentence.
    pub group_id: usize,
    /// Index of the head token (verb/adjective).
    pub head_index: usize,
    /// All token indices in this group (head + auxiliaries).
    pub member_indices: Vec<usize>,
    /// Human-readable conjugation description: "verb, negative, past".
    pub description: String,
}

/// Abstract value of a [`ConjugationGroup`].
pub struct GroupView {
    pub group_id: nat,
    pub head_index: nat,
    pub member_indices: Seq<usize>,
    pub description: Seq<char>,
}

impl ConjugationGroup {
    pub open spec fn view(&self) -> GroupView {
        GroupView {
            group_id: self.group_id as nat,
            head_index: self.head_index as nat,
            member_indices: self.member_indices@,
            description: self.description@,
        }
    }
}

pub open spec fn groups_view(v: Seq<ConjugationGroup>) -> Seq<GroupView> {
    v.map_values(|g: ConjugationGroup| g.view())
}

/// English label of an auxiliary's base form ("" when it has none).
pub open spec fn aux_label(b: Seq<char>) -> Seq<char> {
    if b == "ない"@ {
        "negative"@
    } else if b == "ます"@ {
        "polite"@
    } else if b == "た"@ || b == "だ"@ {
        "past"@
    } else if b == "て"@ || b == "で"@ {
        "te-form"@
    } else if b == "れる"@ || b == "られる"@ {
        "passive/potential"@
    } else if b == "せる"@ || b == "させる"@ {
        "causative"@
    } else if b == "たい"@ {
        "want to"@
    } else if b == "う"@ || b == "よう"@ {
        "volitional"@
    } else if b == "ぬ"@ {
        "negative (classical)"@
    } else if b == "ず"@ {
        "negative (literary)"@
    } else if b == "まい"@ {
        "negative volitional"@
    } else if b == "そう"@ {
        "looks like"@
    } else if b == "らしい"@ {
        "seems like"@
    } else if b == "べし"@ {
        "should (classical)"@
    } else if b == "です"@ {
        "copula (polite)"@
    } else {
        Seq::empty()
    }
}

/// Map an auxiliary's base_form to a human-readable English label.
pub fn auxiliary_label(base_form: &str) -> (r: &'static str)
    ensures
        r@ == aux_label(base_form@),
{
    let b = base_form;
    if str_eq(b, "ない") {
        "negative"
    } else if str_eq(b, "ます") {
        "polite"
    } else if str_eq(b, "た") || str_eq(b, "だ") {
        "past"
    } else if str_eq(b, "て") || str_eq(b, "で") {
        "te-form"
    } else if str_eq(b, "れる") || str_eq(b, "られる") {
        "passive/potential"
    } else if str_eq(b, "せる") || str_eq(b, "させる") {
        "causative"
    } else if str_eq(b, "たい") {
        "want to"
    } else if str_eq(b, "う") || str_eq(b, "よう") {
        "volitional"
    } else if str_eq(b, "ぬ") {
        "negative (classical)"
    } else if str_eq(b, "ず") {
        "negative (literary)"
    } else if str_eq(b, "まい") {
        "negative volitional"
    } else if str_eq(b, "そう") {
        "looks like"
    } else if str_eq(b, "らしい") {
        "seems like"
    } else if str_eq(b, "べし") {
        "should (classical)"
    } else if str_eq(b, "です") {
        "copula (polite)"
    } else {
        proof {
            reveal_strlit("");
        }
        ""
    }
}

/// Inflection label carried by a conjugation form (English or raw UniDic).
pub open spec fn trailing_label(f: Seq<char>) -> Option<Seq<char>> {
    if starts_with(f, "conditional"@) {
        Some("conditional"@)
    } else if starts_with(f, "imperative"@) {
        Some("imperative"@)
    } else if starts_with(f, "volitional"@) {
        Some("volitional"@)
    } else if starts_with(f, "仮定形"@) {
        Some("conditional"@)
    } else if starts_with(f, "命令形"@) {
        Some("imperative"@)
    } else if starts_with(f, "意志推量形"@) {
        Some("volitional"@)
    } else {
        None
    }
}

pub open spec fn opt_view(o: Option<&str>) -> Option<Seq<char>> {
    match o {
        Some(s) => Some(s@),
        None => None,
    }
}

/// Check the conjugation_form of the last group member for trailing inflection
/// info that should be appended to the description.
/// Handles both raw UniDic forms (Japanese) and translated forms (English).
pub fn trailing_form_label(conjugation_form: &str) -> (r: Option<&'static str>)
    ensures
        opt_view(r) == trailing_label(conjugation_form@),
{
    let f = conjugation_form;
    if str_starts_with(f, "conditional") {
        Some("conditional")
    } else if str_starts_with(f, "imperative") {
        Some("imperative")
    } else if str_starts_with(f, "volitional") {
        Some("volitional")
    } else if str_starts_with(f, "仮定形") {
        Some("conditional")
    } else if str_starts_with(f, "命令形") {
        Some("imperative")
    } else if str_starts_with(f, "意志推量形") {
        Some("volitional")
    } else {
        None
    }
}

pub open spec fn pos_label(p: Seq<char>) -> Seq<char> {
    if p == "Verb"@ {
        "verb"@
    } else if p == "Adjective"@ {
        "adjective"@
    } else {
        "word"@
    }
}

/// Labels of the auxiliaries among `members[1..n]`, skipping empty labels.
pub open spec fn aux_parts(toks: Seq<GroupTokenView>, members: Seq<usize>, n: int) -> Seq<
    Seq<char>,
>
    decreases n,
{
    if n <= 1 {
        Seq::empty()
    } else {
        let l = aux_label(toks[members[n - 1] as int].base_form);
        aux_parts(toks, members, n - 1) + if l.len() > 0 {
            seq![l]
        } else {
            Seq::<Seq<char>>::empty()
        }
    }
}

/// `parts` with `lbl` appended unless it is absent or already present.
pub open spec fn add_label(parts: Seq<Seq<char>>, lbl: Option<Seq<char>>) -> Seq<Seq<char>> {
    match lbl {
        Some(l) => if parts.contains(l) {
            parts
        } else {
            parts.push(l)
        },
        None => parts,
    }
}

/// The labels making up the description of a group with the given members.
pub open spec fn description_parts(toks: Seq<GroupTokenView>, members: Seq<usize>) -> Seq<
    Seq<char>,
> {
    let head = toks[members[0] as int];
    let p0 = seq![pos_label(head.pos)] + aux_parts(toks, members, members.len() as int);
    let p1 = add_label(p0, trailing_label(toks[members.last() as int].conjugation_form));
    if members.len() == 1 {
        add_label(p1, trailing_label(head.conjugation_form))
    } else {
        p1
    }
}

pub open spec fn description(toks: Seq<GroupTokenView>, members: Seq<usize>) -> Seq<char> {
    if members.len() == 0 {
        Seq::empty()
    } else {
        join(description_parts(toks, members), ", "@)
    }
}

pub open spec fn strs_view(v: Seq<&str>) -> Seq<Seq<char>> {
    v.map_values(|s: &str| s@)
}

fn contains_str(v: &Vec<&'static str>, s: &str) -> (r: bool)
    ensures
        r == strs_view(v@).contains(s@),
{
    let mut i: usize = 0;
    while i < v.len()
        invariant
            i <= v@.len(),
            forall|k: int| 0 <= k < i ==> v@[k]@ != s@,
        decreases v.len() - i,
    {
        if str_eq(v[i], s) {
            assert(strs_view(v@)[i as int] == s@);
            return true;
        }
        i += 1;
    }
    assert(!strs_view(v@).contains(s@)) by {
        if strs_view(v@).contains(s@) {
            let k = choose|k: int| 0 <= k < strs_view(v@).len() && strs_view(v@)[k] == s@;
            assert(v@[k]@ == s@);
        }
    }
    false
}

fn push_label(parts: &mut Vec<&'static str>, lbl: Option<&'static str>)
    ensures
        strs_view(final(parts)@) == add_label(strs_view(old(parts)@), opt_view(lbl)),
{
    if let Some(l) = lbl {
        if !contains_str(parts, l) {
            parts.push(l);
            assert(strs_view(parts@) == strs_view(old(parts)@).push(l@));
        }
    }
}

/// `parts` joined with `sep`.
pub fn join_strs(parts: &Vec<&'static str>, sep: &str) -> (r: String)
    ensures
        r@ == join(strs_view(parts@), sep@),
{
    let mut out = String::new();
    let mut i: usize = 0;
    while i < parts.len()
        invariant
            i <= parts@.len(),
            out@ == join(strs_view(parts@.take(i as int)), sep@),
        decreases parts.len() - i,
    {
        let ghost prev = out@;
        if i > 0 {
            push_str(&mut out, sep);
        }
        push_str(&mut out, parts[i]);
        i += 1;
        assert(strs_view(parts@.take(i as int)).drop_last() == strs_view(parts@.take(i - 1)));
        assert(strs_view(parts@.take(i as int)).last() == parts@[i - 1]@);
        if i == 1 {
            assert(strs_view(parts@.take(0)) == Seq::<Seq<char>>::empty());
        }
    }
    assert(parts@.take(parts@.len() as int) == parts@);
    out
}

/// Build a human-readable conjugation description from a group of tokens.
///
/// The first token is the head (verb/adjective). Remaining tokens are auxiliaries
/// whose `base_form` is mapped to English labels. The head's `conjugation_form`
/// may add additional info (imperative, conditional, volitional).
pub fn build_conjugation_description(tokens: &[GroupToken], members: &[usize]) -> (r: String)
    requires
        forall|k: int| 0 <= k < members@.len() ==> (#[trigger] members@[k]) < tokens@.len(),
    ensures
        r@ == description(gt_views(tokens@), members@),
{
    if members.len() == 0 {
        return String::new();
    }
    let head = &tokens[members[0]];
    let pos_label: &'static str = if str_eq(head.pos, "Verb") {
        "verb"
    } else if str_eq(head.pos, "Adjective") {
        "adjective"
    } else {
        "word"
    };
    let mut parts: Vec<&'static str> = Vec::new();
    parts.push(pos_label);
    let mut k: usize = 1;
    while k < members.len()
        invariant
            1 <= k <= members@.len(),
            forall|j: int| 0 <= j < members@.len() ==> (#[trigger] members@[j]) < tokens@.len(),
            strs_view(parts@) == seq![pos_label@] + aux_parts(gt_views(tokens@), members@, k as int),
        decreases members.len() - k,
    {
        let label = auxiliary_label(tokens[members[k]].base_form);
        let ghost prev = parts@;
        let ghost l = aux_label(gt_views(tokens@)[members@[k as int] as int].base_form);
        assert(label@ == l);
        if !label.is_empty() {
            parts.push(label);
            assert(strs_view(parts@) == strs_view(prev).push(label@));
        }
        k += 1;
        assert(aux_parts(gt_views(tokens@), members@, k as int) == aux_parts(gt_views(tokens@), members@, k - 1) + if l.len() > 0 {
            seq![l]
        } else {
            Seq::<Seq<char>>::empty()
        });
        assert(strs_view(parts@) == seq![pos_label@] + aux_parts(gt_views(tokens@), members@, k as int));
    }
    let last = &tokens[members[members.len() - 1]];
    push_label(&mut parts, trailing_form_label(last.conjugation_form));
    if members.len() == 1 {
        push_label(&mut parts, trailing_form_label(head.conjugation_form));
    }
    join_strs(&parts, ", ")
}

/// Tokens that may head a conjugation group.
pub open spec fn is_head_pos(p: Seq<char>) -> bool {
    p == "Verb"@ || p == "Adjective"@
}

/// End (exclusive) of the run of Auxiliary tokens starting at `j`.
pub open spec fn aux_run_end(toks: Seq<GroupTokenView>, j: int) -> int
    decreases toks.len() - j,
{
    if 0 <= j < toks.len() && toks[j].pos == "Auxiliary"@ {
        aux_run_end(toks, j + 1)
    } else {
        j
    }
}

pub proof fn lemma_aux_run_end(toks: Seq<GroupTokenView>, j: int)
    requires
        0 <= j <= toks.len(),
    ensures
        j <= aux_run_end(toks, j) <= toks.len(),
        forall|k: int| j <= k < aux_run_end(toks, j) ==> (#[trigger] toks[k]).pos == "Auxiliary"@,
        aux_run_end(toks, j) == toks.len() || toks[aux_run_end(toks, j)].pos != "Auxiliary"@,
    decreases toks.len() - j,
{
    if j < toks.len() && toks[j].pos == "Auxiliary"@ {
        lemma_aux_run_end(toks, j + 1);
    }
}

/// The indices `from..to`.
pub open spec fn index_range(from: int, to: int) -> Seq<usize> {
    Seq::new((to - from) as nat, |k: int| (from + k) as usize)
}

/// The groups found scanning `toks` from position `i`, numbered from `gid`.
pub open spec fn groups_from(toks: Seq<GroupTokenView>, i: int, gid: nat) -> Seq<GroupView>
    decreases toks.len() - i,
{
    if i < 0 || i >= toks.len() {
        Seq::empty()
    } else if is_head_pos(toks[i].pos) {
        let e = aux_run_end(toks, i + 1);
        if e <= i || e > toks.len() {
            Seq::empty()
        } else {
            let members = index_range(i, e);
            seq![
                GroupView {
                    group_id: gid,
                    head_index: i as nat,
                    member_indices: members,
                    description: description(toks, members),
                },
            ] + groups_from(toks, e, gid + 1)
        }
    } else {
        groups_from(toks, i + 1, gid)
    }
}

/// Scan tokens left-to-right and group verb/adjective heads with following auxiliaries.
///
/// Rules:
/// - Start a new group when a Verb or Adjective token is found
/// - Continue adding tokens while the next token's POS is "Auxiliary"
/// - Stop at any non-Auxiliary token
///
/// Returns a list of groups. Standalone verbs/adjectives with no auxiliaries
/// still get a group (single-member) with a base description.
pub fn assign_conjugation_groups(tokens: &[GroupToken]) -> (r: Vec<ConjugationGroup>)
    ensures
        groups_view(r@) == groups_from(gt_views(tokens@), 0, 0),
{
    let mut groups: Vec<ConjugationGroup> = Vec::new();
    let mut group_id: usize = 0;
    let mut i: usize = 0;
    while i < tokens.len()
        invariant
            i <= tokens@.len(),
            group_id <= i,
            group_id == groups@.len(),
            groups_from(gt_views(tokens@), 0, 0) == groups_view(groups@) + groups_from(
                gt_views(tokens@),
                i as int,
                group_id as nat,
            ),
        decreases tokens.len() - i,
    {
        let tok = &tokens[i];
        if str_eq(tok.pos, "Verb") || str_eq(tok.pos, "Adjective") {
            let head_index = i;
            let mut members: Vec<usize> = Vec::new();
            members.push(i);
            let mut j = i + 1;
            proof {
                lemma_aux_run_end(gt_views(tokens@), i + 1);
            }
            while j < tokens.len() && str_eq(tokens[j].pos, "Auxiliary")
                invariant
                    i < j <= tokens@.len(),
                    aux_run_end(gt_views(tokens@), i + 1) == aux_run_end(gt_views(tokens@), j as int),
                    members@ == index_range(i as int, j as int),
                decreases tokens.len() - j,
            {
                members.push(j);
                j += 1;
                assert(members@ == index_range(i as int, j as int));
            }
            proof {
                lemma_aux_run_end(gt_views(tokens@), j as int);
            }
            let desc = build_conjugation_description(tokens, &members);
            let g = ConjugationGroup {
                group_id,
                head_index,
                member_indices: members,
                description: desc,
            };
            let ghost gv = g.view();
            let ghost prev = groups@;
            groups.push(g);
            assert(groups_view(groups@) == groups_view(prev).push(gv));
            group_id += 1;
            i = j;
        } else {
            i += 1;
        }
    }
    groups
}

} // verus!

verus! {

/// One past the last member of a group.
pub open spec fn group_end(g: GroupView) -> int {
    (g.head_index + g.member_indices.len()) as int
}

/// A group is a verb or adjective head followed by the maximal run of
/// auxiliaries after it, its members being exactly those positions.
pub open spec fn group_well_formed(toks: Seq<GroupTokenView>, g: GroupView) -> bool {
    &&& g.member_indices.len() >= 1
    &&& group_end(g) <= toks.len()
    &&& is_head_pos(toks[g.head_index as int].pos)
    &&& g.member_indices == index_range(g.head_index as int, group_end(g))
    &&& forall|m: int|
        g.head_index < m < group_end(g) ==> (#[trigger] toks[m]).pos == "Auxiliary"@
    &&& (group_end(g) == toks.len() || toks[group_end(g)].pos != "Auxiliary"@)
}

proof fn lemma_groups_from(toks: Seq<GroupTokenView>, i: int, gid: nat)
    requires
        0 <= i <= toks.len(),
    ensures
        forall|k: int|
            0 <= k < groups_from(toks, i, gid).len() ==> {
                let g = #[trigger] groups_from(toks, i, gid)[k];
                &&& g.group_id == gid + k
                &&& i <= g.head_index
                &&& group_well_formed(toks, g)
            },
        forall|k1: int, k2: int|
            0 <= k1 < k2 < groups_from(toks, i, gid).len() ==> group_end(
                #[trigger] groups_from(toks, i, gid)[k1],
            ) <= (#[trigger] groups_from(toks, i, gid)[k2]).head_index,
    decreases toks.len() - i,
{
    if i < toks.len() {
        if is_head_pos(toks[i].pos) {
            lemma_aux_run_end(toks, i + 1);
            let e = aux_run_end(toks, i + 1);
            lemma_groups_from(toks, e, gid + 1);
            let members = index_range(i, e);
            let g0 = GroupView {
                group_id: gid,
                head_index: i as nat,
                member_indices: members,
                description: description(toks, members),
            };
            let rest = groups_from(toks, e, gid + 1);
            assert(groups_from(toks, i, gid) == seq![g0] + rest);
            assert(group_well_formed(toks, g0));
            assert forall|k: int| 0 <= k < (seq![g0] + rest).len() implies {
                let g = #[trigger] (seq![g0] + rest)[k];
                &&& g.group_id == gid + k
                &&& i <= g.head_index
                &&& group_well_formed(toks, g)
            } by {
                if k > 0 {
                    assert((seq![g0] + rest)[k] == rest[k - 1]);
                }
            }
            assert forall|k1: int, k2: int|
                0 <= k1 < k2 < (seq![g0] + rest).len() implies group_end(
                #[trigger] (seq![g0] + rest)[k1],
            ) <= (#[trigger] (seq![g0] + rest)[k2]).head_index by {
                assert((seq![g0] + rest)[k2] == rest[k2 - 1]);
                if k1 > 0 {
                    assert((seq![g0] + rest)[k1] == rest[k1 - 1]);
                }
            }
        } else {
            lemma_groups_from(toks, i + 1, gid);
            assert(groups_from(toks, i, gid) == groups_from(toks, i + 1, gid));
        }
    }
}

/// Conjugation groups are numbered 0, 1, 2, ... in order; each consists of a
/// verb or adjective head and the maximal run of auxiliaries that follows it;
/// and the groups appear left to right without overlapping.
pub proof fn law_conjugation_groups_well_formed(toks: Seq<GroupTokenView>)
    ensures
        forall|k: int|
            0 <= k < groups_from(toks, 0, 0).len() ==> {
                let g = #[trigger] groups_from(toks, 0, 0)[k];
                &&& g.group_id == k
                &&& group_well_formed(toks, g)
            },
        forall|k1: int, k2: int|
            0 <= k1 < k2 < groups_from(toks, 0, 0).len() ==> group_end(
                #[trigger] groups_from(toks, 0, 0)[k1],
            ) <= (#[trigger] groups_from(toks, 0, 0)[k2]).head_index,
{
    lemma_groups_from(toks, 0, 0);
}

proof fn lemma_every_head_groups(toks: Seq<GroupTokenView>, i: int, gid: nat, j: int)
    requires
        0 <= i <= j < toks.len(),
        is_head_pos(toks[j].pos),
    ensures
        exists|k: int|
            0 <= k < groups_from(toks, i, gid).len() && (#[trigger] groups_from(toks, i, gid)[k]).head_index == j,
    decreases toks.len() - i,
{
    if is_head_pos(toks[i].pos) {
        lemma_aux_run_end(toks, i + 1);
        let e = aux_run_end(toks, i + 1);
        let members = index_range(i, e);
        let g0 = GroupView {
            group_id: gid,
            head_index: i as nat,
            member_indices: members,
            description: description(toks, members),
        };
        let rest = groups_from(toks, e, gid + 1);
        let all = seq![g0] + rest;
        assert(groups_from(toks, i, gid) == all);
        if j == i {
            assert(all[0].head_index == j);
        } else {
            if j < e {
                assert(toks[j].pos == "Auxiliary"@);
                reveal_strlit("Auxiliary");
                reveal_strlit("Verb");
                reveal_strlit("Adjective");
                assert("Auxiliary"@.len() != "Verb"@.len());
                assert("Auxiliary"@[1] != "Adjective"@[1]);
                assert(false);
            }
            lemma_every_head_groups(toks, e, gid + 1, j);
            let k = choose|k: int| 0 <= k < rest.len() && (#[trigger] rest[k]).head_index == j;
            assert(all[k + 1] == rest[k]);
        }
    } else {
        lemma_every_head_groups(toks, i + 1, gid, j);
        assert(groups_from(toks, i, gid) == groups_from(toks, i + 1, gid));
    }
}

/// Every verb and adjective heads a conjugation group: with the heads being
/// verbs or adjectives (see [`law_conjugation_groups_well_formed`]), the
/// group heads are exactly the verbs and adjectives.
pub proof fn law_every_verb_or_adjective_heads_a_group(toks: Seq<GroupTokenView>, j: int)
    requires
        0 <= j < toks.len(),
        is_head_pos(toks[j].pos),
    ensures
        exists|k: int|
            0 <= k < groups_from(toks, 0, 0).len() && (#[trigger] groups_from(toks, 0, 0)[k]).head_index == j,
{
    lemma_every_head_groups(toks, 0, 0, j);
}

proof fn lemma_join_starts_with_first(parts: Seq<Seq<char>>, sep: Seq<char>)
    requires
        parts.len() > 0,
    ensures
        crate::text::starts_with(join(parts, sep), parts[0]),
    decreases parts.len(),
{
    if parts.len() > 1 {
        lemma_join_starts_with_first(parts.drop_last(), sep);
        assert(parts.drop_last()[0] == parts[0]);
        let j = join(parts.drop_last(), sep);
        assert(join(parts, sep) == j + sep + parts.last());
        assert((j + sep + parts.last()).subrange(0, parts[0].len() as int) =~= j.subrange(0, parts[0].len() as int));
    } else {
        assert(join(parts, sep) == parts[0]);
        assert(parts[0].subrange(0, parts[0].len() as int) =~= parts[0]);
    }
}

proof fn lemma_groups_describe(toks: Seq<GroupTokenView>, i: int, gid: nat)
    ensures
        forall|k: int|
            0 <= k < groups_from(toks, i, gid).len() ==> (#[trigger] groups_from(toks, i, gid)[k]).description
                == description(toks, groups_from(toks, i, gid)[k].member_indices),
    decreases toks.len() - i,
{
    if 0 <= i < toks.len() {
        if is_head_pos(toks[i].pos) {
            let e = aux_run_end(toks, i + 1);
            lemma_aux_run_end(toks, i + 1);
            lemma_groups_describe(toks, e, gid + 1);
            let members = index_range(i, e);
            let g0 = GroupView {
                group_id: gid,
                head_index: i as nat,
                member_indices: members,
                description: description(toks, members),
            };
            let rest = groups_from(toks, e, gid + 1);
            assert(groups_from(toks, i, gid) == seq![g0] + rest);
            assert forall|k: int| 0 <= k < (seq![g0] + rest).len() implies (#[trigger] (seq![g0] + rest)[k]).description
                == description(toks, (seq![g0] + rest)[k].member_indices) by {
                if k > 0 {
                    assert((seq![g0] + rest)[k] == rest[k - 1]);
                }
            }
        } else {
            lemma_groups_describe(toks, i + 1, gid);
            assert(groups_from(toks, i, gid) == groups_from(toks, i + 1, gid));
        }
    }
}

/// A conjugation group's description starts with what its head is: "verb"
/// for a verb head, "adjective" for an adjective head.
pub proof fn law_group_description_names_the_head(toks: Seq<GroupTokenView>, k: int)
    requires
        toks.len() <= usize::MAX,
        0 <= k < groups_from(toks, 0, 0).len(),
    ensures
        ({
            let g = groups_from(toks, 0, 0)[k];
            crate::text::starts_with(g.description, pos_label(toks[g.head_index as int].pos))
        }),
{
    law_conjugation_groups_well_formed(toks);
    let g = groups_from(toks, 0, 0)[k];
    assert(group_well_formed(toks, g));
    lemma_groups_from(toks, 0, 0);
    lemma_groups_describe(toks, 0, 0);
    assert(g.description == description(toks, g.member_indices));
    let members = g.member_indices;
    assert(members == index_range(g.head_index as int, group_end(g)));
    assert(g.head_index < toks.len());
    assert(members[0] as int == g.head_index);
    let head = toks[members[0] as int];
    let p0 = seq![pos_label(head.pos)] + aux_parts(toks, members, members.len() as int);
    assert(p0[0] == pos_label(head.pos));
    let p1 = add_label(p0, trailing_label(toks[members.last() as int].conjugation_form));
    assert(p1.len() > 0 && p1[0] == p0[0]);
    let parts = description_parts(toks, members);
    assert(parts.len() > 0 && parts[0] == p0[0]);
    lemma_join_starts_with_first(parts, ", "@);
}

} // verus!
