//! The library list: the standalone texts and the multi-chapter sources,
//! kept to one source type when a filter is set, in the chosen order, and
//! the source types there are to filter by.
use vstd::prelude::*;
use crate::models::{Text, WebSource};
use crate::screens::{LibraryItem, LibrarySort};
use crate::text::{to_chars, str_eq, str_contains, contains_seq, lowercase_of, to_lowercase};

verus! {

broadcast use vstd::seq_lib::group_to_multiset_ensures;

// ─── The order of strings ───────────────────────────────────────────

/// Whether `a` comes before `b` when their characters are compared one by
/// one by code point, a proper prefix coming first (the order of `str`).
pub open spec fn text_before(a: Seq<char>, b: Seq<char>) -> bool
    decreases a.len(),
{
    if a.len() == 0 {
        b.len() > 0
    } else if b.len() == 0 {
        false
    } else if a[0] != b[0] {
        (a[0] as int) < (b[0] as int)
    } else {
        text_before(a.drop_first(), b.drop_first())
    }
}

/// No string comes before itself.
pub proof fn lemma_text_before_irreflexive(a: Seq<char>)
    ensures
        !text_before(a, a),
    decreases a.len(),
{
    if a.len() > 0 {
        lemma_text_before_irreflexive(a.drop_first());
    }
}

/// The order of strings is transitive.
pub proof fn lemma_text_before_transitive(a: Seq<char>, b: Seq<char>, c: Seq<char>)
    requires
        text_before(a, b),
        text_before(b, c),
    ensures
        text_before(a, c),
    decreases a.len(),
{
    if a.len() > 0 && b.len() > 0 && c.len() > 0 && a[0] == b[0] && b[0] == c[0] {
        lemma_text_before_transitive(a.drop_first(), b.drop_first(), c.drop_first());
    }
}

/// Of two different strings, one comes before the other.
pub proof fn lemma_text_before_total(a: Seq<char>, b: Seq<char>)
    ensures
        a == b || text_before(a, b) || text_before(b, a),
    decreases a.len(),
{
    if a.len() > 0 && b.len() > 0 && a[0] == b[0] {
        lemma_text_before_total(a.drop_first(), b.drop_first());
        if a.drop_first() == b.drop_first() {
            assert(a =~= seq![a[0]] + a.drop_first());
            assert(b =~= seq![b[0]] + b.drop_first());
        }
    } else if a.len() == 0 && b.len() == 0 {
        assert(a =~= b);
    }
}

/// Of two strings, when neither comes before the other in one pair and the
/// next, the first does not come before the last either.
pub proof fn lemma_not_before_transitive(a: Seq<char>, b: Seq<char>, c: Seq<char>)
    requires
        !text_before(a, b),
        !text_before(b, c),
    ensures
        !text_before(a, c),
{
    lemma_text_before_total(a, b);
    lemma_text_before_total(b, c);
    if text_before(a, c) {
        if text_before(b, a) {
            lemma_text_before_transitive(b, a, c);
        }
        if text_before(c, b) {
            lemma_text_before_transitive(a, c, b);
        }
        lemma_text_before_irreflexive(a);
        lemma_text_before_irreflexive(b);
    }
}

/// Whether the characters `a` come before the characters `b`.
fn chars_before(a: &Vec<char>, b: &Vec<char>) -> (r: bool)
    ensures
        r == text_before(a@, b@),
{
    let mut i: usize = 0;
    assert(a@.skip(0) =~= a@);
    assert(b@.skip(0) =~= b@);
    while i < a.len() && i < b.len() && a[i] == b[i]
        invariant
            i <= a@.len(),
            i <= b@.len(),
            text_before(a@, b@) == text_before(a@.skip(i as int), b@.skip(i as int)),
        decreases a.len() - i,
    {
        assert(a@.skip(i as int).drop_first() =~= a@.skip(i + 1));
        assert(b@.skip(i as int).drop_first() =~= b@.skip(i + 1));
        i += 1;
    }
    let ghost sa = a@.skip(i as int);
    let ghost sb = b@.skip(i as int);
    if i >= a.len() {
        assert(sa.len() == 0);
        i < b.len()
    } else if i >= b.len() {
        assert(sb.len() == 0);
        false
    } else {
        assert(sa[0] == a@[i as int] && sb[0] == b@[i as int]);
        a[i] < b[i]
    }
}

/// Whether `a` comes before `b` (`a < b` on `str`).
pub fn str_before(a: &str, b: &str) -> (r: bool)
    ensures
        r == text_before(a@, b@),
{
    let x = to_chars(a);
    let y = to_chars(b);
    chars_before(&x, &y)
}

// ─── The items listed ───────────────────────────────────────────────

pub open spec fn item_title(i: LibraryItem) -> Seq<char> {
    match i {
        LibraryItem::Text(t) => t.title@,
        LibraryItem::Source(s) => s.title@,
    }
}

pub open spec fn item_created(i: LibraryItem) -> Seq<char> {
    match i {
        LibraryItem::Text(t) => t.created_at@,
        LibraryItem::Source(s) => s.last_synced@,
    }
}

pub open spec fn item_type(i: LibraryItem) -> Seq<char> {
    match i {
        LibraryItem::Text(t) => t.source_type@,
        LibraryItem::Source(s) => s.source_type@,
    }
}

/// Whether an item of source type `t` is listed under the filter.
pub open spec fn passes(filter: Option<String>, t: Seq<char>) -> bool {
    match filter {
        Some(f) => f@ == t,
        None => true,
    }
}

/// The texts that pass the filter, as items, in their order.
pub open spec fn listed_texts(texts: Seq<Text>, filter: Option<String>) -> Seq<LibraryItem>
    decreases texts.len(),
{
    if texts.len() == 0 {
        Seq::empty()
    } else {
        let rest = listed_texts(texts.drop_last(), filter);
        if passes(filter, texts.last().source_type@) {
            rest.push(LibraryItem::Text(texts.last()))
        } else {
            rest
        }
    }
}

/// The sources that pass the filter, as items, in their order.
pub open spec fn listed_sources(sources: Seq<WebSource>, filter: Option<String>) -> Seq<LibraryItem>
    decreases sources.len(),
{
    if sources.len() == 0 {
        Seq::empty()
    } else {
        let rest = listed_sources(sources.drop_last(), filter);
        if passes(filter, sources.last().source_type@) {
            rest.push(LibraryItem::Source(sources.last()))
        } else {
            rest
        }
    }
}

/// Whether the source type `t` passes the filter.
fn passes_exec(filter: &Option<String>, t: &str) -> (r: bool)
    ensures
        r == passes(*filter, t@),
{
    match filter {
        Some(f) => str_eq(f.as_str(), t),
        None => true,
    }
}

/// The library's items: the standalone texts, then the sources, each kept
/// when it passes the source-type filter.
pub fn library_items(texts: Vec<Text>, sources: Vec<WebSource>, filter: &Option<String>) -> (r: Vec<LibraryItem>)
    ensures
        r@ == listed_texts(texts@, *filter) + listed_sources(sources@, *filter),
{
    let mut out: Vec<LibraryItem> = Vec::new();
    let ghost all_texts = texts@;
    let ghost all_sources = sources@;
    let n_texts = texts.len();
    let n_sources = sources.len();
    let mut rest = texts;
    let mut i: usize = 0;
    assert(all_texts.skip(0) =~= all_texts);
    while rest.len() > 0
        invariant
            all_texts.len() <= usize::MAX,
            i + rest@.len() == all_texts.len(),
            rest@ == all_texts.skip(i as int),
            out@ == listed_texts(all_texts.take(i as int), *filter),
        decreases rest.len(),
    {
        let t = rest.remove(0);
        assert(all_texts.take(i + 1).drop_last() =~= all_texts.take(i as int));
        assert(all_texts.take(i + 1).last() == t);
        if passes_exec(filter, t.source_type.as_str()) {
            out.push(LibraryItem::Text(t));
        }
        i += 1;
        assert(rest@ =~= all_texts.skip(i as int));
    }
    assert(all_texts.take(i as int) =~= all_texts);
    let ghost before = out@;
    let mut rest = sources;
    let mut j: usize = 0;
    assert(all_sources.skip(0) =~= all_sources);
    assert(before + Seq::<LibraryItem>::empty() =~= before);
    while rest.len() > 0
        invariant
            all_sources.len() <= usize::MAX,
            j + rest@.len() == all_sources.len(),
            rest@ == all_sources.skip(j as int),
            out@ == before + listed_sources(all_sources.take(j as int), *filter),
        decreases rest.len(),
    {
        let s = rest.remove(0);
        assert(all_sources.take(j + 1).drop_last() =~= all_sources.take(j as int));
        assert(all_sources.take(j + 1).last() == s);
        let ghost prev = out@;
        if passes_exec(filter, s.source_type.as_str()) {
            out.push(LibraryItem::Source(s));
            assert(out@ =~= before + listed_sources(all_sources.take(j + 1), *filter));
        }
        j += 1;
        assert(rest@ =~= all_sources.skip(j as int));
    }
    assert(all_sources.take(j as int) =~= all_sources);
    out
}

// ─── The order of the items ─────────────────────────────────────────

/// Whether item `x` goes before item `y` in the order `sort`: newest or
/// oldest first by when they were added, or by title. The completion order
/// rests on reading statistics that this order does not see: under it no
/// item goes before another, and the items keep their order.
pub open spec fn goes_before(x: LibraryItem, y: LibraryItem, sort: LibrarySort) -> bool {
    match sort {
        LibrarySort::DateDesc => text_before(item_created(y), item_created(x)),
        LibrarySort::DateAsc => text_before(item_created(x), item_created(y)),
        LibrarySort::TitleAsc => text_before(item_title(x), item_title(y)),
        LibrarySort::Completion => false,
    }
}

/// `s` with `x` put after the last item that `x` does not go before.
pub open spec fn inserted(s: Seq<LibraryItem>, x: LibraryItem, sort: LibrarySort) -> Seq<LibraryItem>
    decreases s.len(),
{
    if s.len() == 0 || !goes_before(x, s.last(), sort) {
        s.push(x)
    } else {
        inserted(s.drop_last(), x, sort).push(s.last())
    }
}

/// The items in the order `sort`, items that neither goes before the other
/// keeping their order (a stable sort).
pub open spec fn sorted_items(s: Seq<LibraryItem>, sort: LibrarySort) -> Seq<LibraryItem>
    decreases s.len(),
{
    if s.len() == 0 {
        s
    } else {
        inserted(sorted_items(s.drop_last(), sort), s.last(), sort)
    }
}

/// Whether item `x` goes before item `y`.
fn item_goes_before(x: &LibraryItem, y: &LibraryItem, sort: LibrarySort) -> (r: bool)
    ensures
        r == goes_before(*x, *y, sort),
{
    match sort {
        LibrarySort::DateDesc => str_before(y.created_at(), x.created_at()),
        LibrarySort::DateAsc => str_before(x.created_at(), y.created_at()),
        LibrarySort::TitleAsc => str_before(x.title(), y.title()),
        LibrarySort::Completion => false,
    }
}

proof fn lemma_inserted_at(s: Seq<LibraryItem>, x: LibraryItem, sort: LibrarySort, k: int)
    requires
        0 <= k <= s.len(),
        forall|j: int| k <= j < s.len() ==> goes_before(x, #[trigger] s[j], sort),
        k == 0 || !goes_before(x, s[k - 1], sort),
    ensures
        inserted(s, x, sort) == s.take(k).push(x) + s.skip(k),
    decreases s.len(),
{
    if k == s.len() {
        assert(s.take(k) =~= s);
        assert(s.skip(k) =~= Seq::<LibraryItem>::empty());
        assert(s.take(k).push(x) + s.skip(k) =~= s.push(x));
    } else {
        assert(goes_before(x, s[s.len() - 1], sort));
        let t = s.drop_last();
        assert forall|j: int| k <= j < t.len() implies goes_before(x, #[trigger] t[j], sort) by {
            assert(t[j] == s[j]);
        }
        if k > 0 {
            assert(t[k - 1] == s[k - 1]);
        }
        lemma_inserted_at(t, x, sort, k);
        assert(t.take(k) =~= s.take(k));
        assert((t.take(k).push(x) + t.skip(k)).push(s.last()) =~= s.take(k).push(x) + s.skip(k));
    }
}

/// The items in the order `sort`: see [`sorted_items`]. Under the completion
/// order they stay as they are; the caller orders them by their statistics.
pub fn sort_library(items: Vec<LibraryItem>, sort: LibrarySort) -> (r: Vec<LibraryItem>)
    ensures
        r@ == sorted_items(items@, sort),
{
    let ghost all = items@;
    let n = items.len();
    let mut rest = items;
    let mut out: Vec<LibraryItem> = Vec::new();
    let mut i: usize = 0;
    assert(all.skip(0) =~= all);
    assert(all.take(0) =~= Seq::<LibraryItem>::empty());
    while rest.len() > 0
        invariant
            all.len() <= usize::MAX,
            i + rest@.len() == all.len(),
            rest@ == all.skip(i as int),
            out@ == sorted_items(all.take(i as int), sort),
        decreases rest.len(),
    {
        let x = rest.remove(0);
        let mut k: usize = out.len();
        while k > 0 && item_goes_before(&x, &out[k - 1], sort)
            invariant
                k <= out@.len(),
                forall|j: int| k <= j < out@.len() ==> goes_before(x, #[trigger] out@[j], sort),
            decreases k,
        {
            k -= 1;
        }
        proof {
            lemma_inserted_at(out@, x, sort, k as int);
            assert(all.take(i + 1).drop_last() =~= all.take(i as int));
            assert(all.take(i + 1).last() == x);
        }
        let ghost prev = out@;
        out.insert(k, x);
        assert(out@ =~= prev.take(k as int).push(x) + prev.skip(k as int));
        i += 1;
        assert(rest@ =~= all.skip(i as int));
    }
    assert(all.take(i as int) =~= all);
    out
}

/// No item goes before one that comes earlier in `s`.
pub open spec fn in_order(s: Seq<LibraryItem>, sort: LibrarySort) -> bool {
    forall|i: int, j: int| 0 <= i < j < s.len() ==> !goes_before(#[trigger] s[j], #[trigger] s[i], sort)
}

proof fn lemma_not_goes_before_transitive(x: LibraryItem, y: LibraryItem, z: LibraryItem, sort: LibrarySort)
    requires
        !goes_before(x, y, sort),
        !goes_before(y, z, sort),
    ensures
        !goes_before(x, z, sort),
{
    match sort {
        LibrarySort::DateDesc => lemma_not_before_transitive(item_created(z), item_created(y), item_created(x)),
        LibrarySort::DateAsc => lemma_not_before_transitive(item_created(x), item_created(y), item_created(z)),
        LibrarySort::TitleAsc => lemma_not_before_transitive(item_title(x), item_title(y), item_title(z)),
        LibrarySort::Completion => {},
    }
}

proof fn lemma_goes_before_asymmetric(x: LibraryItem, y: LibraryItem, sort: LibrarySort)
    requires
        goes_before(x, y, sort),
    ensures
        !goes_before(y, x, sort),
{
    match sort {
        LibrarySort::DateDesc => {
            if goes_before(y, x, sort) {
                lemma_text_before_transitive(item_created(y), item_created(x), item_created(y));
                lemma_text_before_irreflexive(item_created(y));
            }
        },
        LibrarySort::DateAsc => {
            if goes_before(y, x, sort) {
                lemma_text_before_transitive(item_created(x), item_created(y), item_created(x));
                lemma_text_before_irreflexive(item_created(x));
            }
        },
        LibrarySort::TitleAsc => {
            if goes_before(y, x, sort) {
                lemma_text_before_transitive(item_title(x), item_title(y), item_title(x));
                lemma_text_before_irreflexive(item_title(x));
            }
        },
        LibrarySort::Completion => {},
    }
}

proof fn lemma_inserted_keeps_items(s: Seq<LibraryItem>, x: LibraryItem, sort: LibrarySort)
    ensures
        inserted(s, x, sort).to_multiset() == s.to_multiset().insert(x),
        inserted(s, x, sort).len() == s.len() + 1,
    decreases s.len(),
{
    if s.len() > 0 && goes_before(x, s.last(), sort) {
        lemma_inserted_keeps_items(s.drop_last(), x, sort);
        assert(s == s.drop_last().push(s.last()));
        assert(s.drop_last().to_multiset().insert(x).insert(s.last()) =~= s.drop_last().to_multiset().insert(
            s.last(),
        ).insert(x));
    }
}

proof fn lemma_inserted_in_order(s: Seq<LibraryItem>, x: LibraryItem, sort: LibrarySort)
    requires
        in_order(s, sort),
    ensures
        in_order(inserted(s, x, sort), sort),
    decreases s.len(),
{
    let r = inserted(s, x, sort);
    if s.len() == 0 {
    } else if !goes_before(x, s.last(), sort) {
        assert forall|i: int, j: int| 0 <= i < j < r.len() implies !goes_before(#[trigger] r[j], #[trigger] r[i], sort) by {
            if j == s.len() {
                if i < s.len() - 1 {
                    assert(!goes_before(s[s.len() - 1], s[i], sort));
                    lemma_not_goes_before_transitive(x, s[s.len() - 1], s[i], sort);
                }
            } else {
                assert(r[i] == s[i] && r[j] == s[j]);
            }
        }
    } else {
        let t = s.drop_last();
        let last = s.last();
        assert(in_order(t, sort)) by {
            assert forall|i: int, j: int| 0 <= i < j < t.len() implies !goes_before(#[trigger] t[j], #[trigger] t[i], sort) by {
                assert(t[i] == s[i] && t[j] == s[j]);
            }
        }
        lemma_inserted_in_order(t, x, sort);
        let u = inserted(t, x, sort);
        lemma_inserted_keeps_items(t, x, sort);
        assert forall|i: int, j: int| 0 <= i < j < r.len() implies !goes_before(#[trigger] r[j], #[trigger] r[i], sort) by {
            if j == u.len() {
                assert(r[j] == last);
                let e = u[i];
                assert(u.to_multiset().count(e) > 0);
                assert(t.to_multiset().insert(x).count(e) > 0);
                if e == x {
                    lemma_goes_before_asymmetric(x, last, sort);
                } else {
                    assert(t.to_multiset().count(e) > 0);
                    assert(t.contains(e));
                    let k = choose|k: int| 0 <= k < t.len() && t[k] == e;
                    assert(s[k] == e);
                    assert(!goes_before(s[s.len() - 1], s[k], sort));
                }
            } else {
                assert(r[i] == u[i] && r[j] == u[j]);
            }
        }
    }
}

/// Sorting the library keeps every item, and puts them in order: no item
/// goes before one listed earlier.
pub proof fn law_sorted_library_is_an_ordered_rearrangement(s: Seq<LibraryItem>, sort: LibrarySort)
    ensures
        sorted_items(s, sort).to_multiset() == s.to_multiset(),
        in_order(sorted_items(s, sort), sort),
    decreases s.len(),
{
    if s.len() > 0 {
        let t = s.drop_last();
        law_sorted_library_is_an_ordered_rearrangement(t, sort);
        lemma_inserted_keeps_items(sorted_items(t, sort), s.last(), sort);
        lemma_inserted_in_order(sorted_items(t, sort), s.last(), sort);
        assert(s == t.push(s.last()));
    }
}

// ─── The source types ───────────────────────────────────────────────

/// Each string comes before the next.
pub open spec fn strictly_ascending(v: Seq<String>) -> bool {
    forall|i: int| 0 <= i < v.len() - 1 ==> text_before(#[trigger] v[i]@, v[i + 1]@)
}

/// The strings of `v`, as a set.
pub open spec fn string_set(v: Seq<String>) -> Set<Seq<char>> {
    Set::new(|x: Seq<char>| exists|k: int| 0 <= k < v.len() && #[trigger] v[k]@ == x)
}

/// The source types of the items.
pub open spec fn item_types(items: Seq<LibraryItem>) -> Set<Seq<char>> {
    Set::new(|x: Seq<char>| exists|i: int| 0 <= i < items.len() && item_type(#[trigger] items[i]) == x)
}

/// Puts `t` in the ascending list `out`, unless it is there.
fn insert_type(out: &mut Vec<String>, t: &str)
    requires
        strictly_ascending(old(out)@),
    ensures
        strictly_ascending(final(out)@),
        string_set(final(out)@) == string_set(old(out)@).insert(t@),
{
    let ghost prev = out@;
    let mut k: usize = 0;
    while k < out.len() && str_before(out[k].as_str(), t)
        invariant
            k <= out@.len(),
            out@ == prev,
            forall|j: int| 0 <= j < k ==> text_before(#[trigger] out@[j]@, t@),
        decreases out.len() - k,
    {
        k += 1;
    }
    if k < out.len() && str_eq(out[k].as_str(), t) {
        assert(string_set(prev).insert(t@) =~= string_set(prev)) by {
            assert(string_set(prev).contains(t@)) by {
                assert(prev[k as int]@ == t@);
            }
        }
        return;
    }
    let s = t.to_owned();
    proof {
        if k < prev.len() {
            lemma_text_before_total(prev[k as int]@, t@);
        }
    }
    out.insert(k, s);
    assert(out@ == prev.insert(k as int, s));
    assert forall|j: int| 0 <= j < out@.len() - 1 implies text_before(#[trigger] out@[j]@, out@[j + 1]@) by {
        if j < k as int - 1 {
            assert(out@[j] == prev[j] && out@[j + 1] == prev[j + 1]);
        } else if j == k as int - 1 {
            assert(out@[j] == prev[j]);
        } else if j == k as int {
        } else {
            assert(out@[j] == prev[j - 1] && out@[j + 1] == prev[j]);
        }
    }
    assert forall|x: Seq<char>| string_set(out@).contains(x) <==> string_set(prev).insert(t@).contains(x) by {
        if string_set(out@).contains(x) {
            let w = choose|w: int| 0 <= w < out@.len() && #[trigger] out@[w]@ == x;
            if w < k {
                assert(prev[w]@ == x);
            } else if w > k {
                assert(prev[w - 1]@ == x);
            }
        }
        if string_set(prev).insert(t@).contains(x) {
            if x == t@ {
                assert(out@[k as int]@ == x);
            } else {
                let w = choose|w: int| 0 <= w < prev.len() && #[trigger] prev[w]@ == x;
                if w < k {
                    assert(out@[w]@ == x);
                } else {
                    assert(out@[w + 1]@ == x);
                }
            }
        }
    }
    assert(string_set(out@) =~= string_set(prev).insert(t@));
}

/// The source types of the items, each once, in ascending order.
pub fn library_source_types(items: &Vec<LibraryItem>) -> (r: Vec<String>)
    ensures
        strictly_ascending(r@),
        string_set(r@) == item_types(items@),
{
    let mut out: Vec<String> = Vec::new();
    let mut i: usize = 0;
    assert(string_set(out@) =~= item_types(items@.take(0)));
    while i < items.len()
        invariant
            i <= items@.len(),
            strictly_ascending(out@),
            string_set(out@) == item_types(items@.take(i as int)),
        decreases items.len() - i,
    {
        let t = items[i].source_type();
        insert_type(&mut out, t);
        proof {
            let a = items@.take(i as int);
            let b = items@.take(i + 1);
            assert forall|x: Seq<char>| item_types(b).contains(x) <==> item_types(a).insert(t@).contains(x) by {
                if item_types(b).contains(x) {
                    let w = choose|w: int| 0 <= w < b.len() && item_type(#[trigger] b[w]) == x;
                    if w < i {
                        assert(a[w] == b[w]);
                    }
                }
                if item_types(a).insert(t@).contains(x) && x != t@ {
                    let w = choose|w: int| 0 <= w < a.len() && item_type(#[trigger] a[w]) == x;
                    assert(b[w] == a[w]);
                }
                if x == t@ {
                    assert(item_type(b[i as int]) == x);
                }
            }
            assert(item_types(b) =~= item_types(a).insert(t@));
        }
        i += 1;
    }
    assert(items@.take(i as int) =~= items@);
    out
}

// ─── Searching ──────────────────────────────────────────────────────

/// Whether a title matches the query, both lowercased.
pub open spec fn title_matches(title: Seq<char>, query: Seq<char>) -> bool {
    contains_seq(lowercase_of(title), lowercase_of(query))
}

/// The sources whose title holds the query, lowercased, in their order.
pub open spec fn matching_sources(sources: Seq<WebSource>, query: Seq<char>) -> Seq<LibraryItem>
    decreases sources.len(),
{
    if sources.len() == 0 {
        Seq::empty()
    } else {
        let rest = matching_sources(sources.drop_last(), query);
        if title_matches(sources.last().title@, query) {
            rest.push(LibraryItem::Source(sources.last()))
        } else {
            rest
        }
    }
}

/// The texts as items, in their order.
pub open spec fn text_items(texts: Seq<Text>) -> Seq<LibraryItem> {
    texts.map_values(|t: Text| LibraryItem::Text(t))
}

/// The items a library search lists: the texts the store found for the
/// query, then the sources whose title holds the query, compared in
/// lowercase.
pub fn search_items(texts: Vec<Text>, sources: Vec<WebSource>, query: &str) -> (r: Vec<LibraryItem>)
    ensures
        r@ == text_items(texts@) + matching_sources(sources@, query@),
{
    let mut out: Vec<LibraryItem> = Vec::new();
    let ghost all_texts = texts@;
    let ghost all_sources = sources@;
    let n_texts = texts.len();
    let n_sources = sources.len();
    let mut rest = texts;
    let mut i: usize = 0;
    assert(all_texts.skip(0) =~= all_texts);
    while rest.len() > 0
        invariant
            all_texts.len() <= usize::MAX,
            i + rest@.len() == all_texts.len(),
            rest@ == all_texts.skip(i as int),
            out@ == text_items(all_texts.take(i as int)),
        decreases rest.len(),
    {
        let t = rest.remove(0);
        let ghost prev = out@;
        out.push(LibraryItem::Text(t));
        i += 1;
        assert(out@ =~= text_items(all_texts.take(i as int)));
        assert(rest@ =~= all_texts.skip(i as int));
    }
    assert(all_texts.take(i as int) =~= all_texts);
    let q = to_lowercase(query);
    let ghost before = out@;
    let mut rest = sources;
    let mut j: usize = 0;
    assert(all_sources.skip(0) =~= all_sources);
    assert(before + Seq::<LibraryItem>::empty() =~= before);
    while rest.len() > 0
        invariant
            all_sources.len() <= usize::MAX,
            j + rest@.len() == all_sources.len(),
            rest@ == all_sources.skip(j as int),
            q@ == lowercase_of(query@),
            out@ == before + matching_sources(all_sources.take(j as int), query@),
        decreases rest.len(),
    {
        let s = rest.remove(0);
        assert(all_sources.take(j + 1).drop_last() =~= all_sources.take(j as int));
        assert(all_sources.take(j + 1).last() == s);
        let title = to_lowercase(s.title.as_str());
        if str_contains(title.as_str(), q.as_str()) {
            out.push(LibraryItem::Source(s));
            assert(out@ =~= before + matching_sources(all_sources.take(j + 1), query@));
        }
        j += 1;
        assert(rest@ =~= all_sources.skip(j as int));
    }
    assert(all_sources.take(j as int) =~= all_sources);
    out
}

} // verus!
