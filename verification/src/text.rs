//! Character-level string utilities shared by the importers and the tokenizer.
//!
//! Strings are modelled by their view, a `Seq<char>`.  The spec functions in
//! this module (trimming, line splitting, splitting on a separator, joining)
//! are the vocabulary in which the rest of the library states its contracts.
use vstd::prelude::*;

verus! {

/// Appending one character to a string.
pub assume_specification[ String::push ](s: &mut String, ch: char)
    ensures
        final(s)@ == old(s)@.push(ch),
;

/// Unicode `White_Space` characters (what `char::is_whitespace` accepts).
pub open spec fn is_ws(c: char) -> bool {
    ||| ('\u{9}' <= c && c <= '\u{d}')
    ||| c == ' '
    ||| c == '\u{85}'
    ||| c == '\u{a0}'
    ||| c == '\u{1680}'
    ||| ('\u{2000}' <= c && c <= '\u{200a}')
    ||| c == '\u{2028}'
    ||| c == '\u{2029}'
    ||| c == '\u{202f}'
    ||| c == '\u{205f}'
    ||| c == '\u{3000}'
}

pub fn is_whitespace(c: char) -> (r: bool)
    ensures
        r == is_ws(c),
{
    ('\u{9}' <= c && c <= '\u{d}') || c == ' ' || c == '\u{85}' || c == '\u{a0}' || c
        == '\u{1680}' || ('\u{2000}' <= c && c <= '\u{200a}') || c == '\u{2028}' || c
        == '\u{2029}' || c == '\u{202f}' || c == '\u{205f}' || c == '\u{3000}'
}

/// `s` with its leading whitespace removed.
pub open spec fn trim_start(s: Seq<char>) -> Seq<char>
    decreases s.len(),
{
    if s.len() > 0 && is_ws(s[0]) {
        trim_start(s.drop_first())
    } else {
        s
    }
}

/// `s` with its trailing whitespace removed.
pub open spec fn trim_end(s: Seq<char>) -> Seq<char>
    decreases s.len(),
{
    if s.len() > 0 && is_ws(s.last()) {
        trim_end(s.drop_last())
    } else {
        s
    }
}

/// `s` with leading and trailing whitespace removed (`str::trim`).
pub open spec fn trim(s: Seq<char>) -> Seq<char> {
    trim_end(trim_start(s))
}

pub open spec fn is_ascii_digit(c: char) -> bool {
    '0' <= c && c <= '9'
}

pub open spec fn is_ascii_alpha(c: char) -> bool {
    ('a' <= c && c <= 'z') || ('A' <= c && c <= 'Z')
}

pub open spec fn is_ascii_char(c: char) -> bool {
    (c as u32) < 128
}

/// `p` is a prefix of `s`.
pub open spec fn starts_with(s: Seq<char>, p: Seq<char>) -> bool {
    p.len() <= s.len() && s.subrange(0, p.len() as int) == p
}

/// `p` is a suffix of `s`.
pub open spec fn ends_with(s: Seq<char>, p: Seq<char>) -> bool {
    p.len() <= s.len() && s.subrange(s.len() - p.len(), s.len() as int) == p
}

/// `p` occurs in `s` at position `i`.
pub open spec fn occurs_at(s: Seq<char>, p: Seq<char>, i: int) -> bool {
    0 <= i && i + p.len() <= s.len() && s.subrange(i, i + p.len()) == p
}

/// `p` occurs somewhere in `s`.
pub open spec fn contains_seq(s: Seq<char>, p: Seq<char>) -> bool {
    exists|i: int| occurs_at(s, p, i)
}

/// The first position at or after `from` where the non-empty `p` occurs in `s`,
/// or `s.len()` when there is none.
pub open spec fn find_from(s: Seq<char>, p: Seq<char>, from: int) -> int
    decreases s.len() - from,
{
    if from < 0 || from + p.len() > s.len() || p.len() == 0 {
        s.len() as int
    } else if s.subrange(from, from + p.len()) == p {
        from
    } else {
        find_from(s, p, from + 1)
    }
}

/// The pieces of `s` between the non-overlapping occurrences of the non-empty
/// separator `sep`, scanning from `from` (`str::split` with a string pattern).
pub open spec fn split_from(s: Seq<char>, sep: Seq<char>, from: int) -> Seq<Seq<char>>
    decreases s.len() - from,
{
    let k = find_from(s, sep, from);
    if sep.len() == 0 || from < 0 || from > s.len() || k < from || k + sep.len() > s.len() {
        seq![s.subrange(from, s.len() as int)]
    } else {
        seq![s.subrange(from, k)] + split_from(s, sep, k + sep.len())
    }
}

pub open spec fn split_str(s: Seq<char>, sep: Seq<char>) -> Seq<Seq<char>> {
    split_from(s, sep, 0)
}

/// `parts` joined with `sep` between consecutive parts.
pub open spec fn join(parts: Seq<Seq<char>>, sep: Seq<char>) -> Seq<char>
    decreases parts.len(),
{
    if parts.len() == 0 {
        Seq::empty()
    } else if parts.len() == 1 {
        parts[0]
    } else {
        join(parts.drop_last(), sep) + sep + parts.last()
    }
}

/// Concatenation of all `parts`.
pub open spec fn concat(parts: Seq<Seq<char>>) -> Seq<char>
    decreases parts.len(),
{
    if parts.len() == 0 {
        Seq::empty()
    } else {
        concat(parts.drop_last()) + parts.last()
    }
}

/// One line as `str::lines` yields it: the line terminator `\n` and a `\r`
/// just before it are dropped.
pub open spec fn strip_line_end(piece: Seq<char>) -> Seq<char> {
    if piece.len() > 0 && piece.last() == '\n' {
        let p = piece.drop_last();
        if p.len() > 0 && p.last() == '\r' {
            p.drop_last()
        } else {
            p
        }
    } else {
        piece
    }
}

/// The texts of a sequence of strings.
pub open spec fn strings_view(v: Seq<String>) -> Seq<Seq<char>> {
    v.map_values(|s: String| s@)
}

/// Index just past the first `\n` at or after `from` (or `s.len()`).
pub open spec fn line_end(s: Seq<char>, from: int) -> int
    decreases s.len() - from,
{
    if from < 0 || from >= s.len() {
        s.len() as int
    } else if s[from] == '\n' {
        from + 1
    } else {
        line_end(s, from + 1)
    }
}

/// The lines of `s` starting at `from` (`str::lines`).
pub open spec fn lines_from(s: Seq<char>, from: int) -> Seq<Seq<char>>
    decreases s.len() - from,
{
    if from < 0 || from >= s.len() {
        Seq::empty()
    } else {
        let e = line_end(s, from);
        if e <= from || e > s.len() {
            Seq::empty()
        } else {
            seq![strip_line_end(s.subrange(from, e))] + lines_from(s, e)
        }
    }
}

pub open spec fn lines(s: Seq<char>) -> Seq<Seq<char>> {
    lines_from(s, 0)
}

pub proof fn lemma_line_end_bounds(s: Seq<char>, from: int)
    requires
        0 <= from < s.len(),
    ensures
        from < line_end(s, from) <= s.len(),
        forall|k: int| from <= k < line_end(s, from) - 1 ==> s[k] != '\n',
        s[line_end(s, from) - 1] == '\n' || line_end(s, from) == s.len(),
    decreases s.len() - from,
{
    if s[from] != '\n' {
        if from + 1 < s.len() {
            lemma_line_end_bounds(s, from + 1);
        } else {
            assert(line_end(s, from + 1) == s.len());
        }
    }
}


pub proof fn lemma_trim_start_suffix(s: Seq<char>)
    ensures
        trim_start(s).len() <= s.len(),
        trim_start(s) == s.subrange(s.len() - trim_start(s).len(), s.len() as int),
        trim_start(s).len() > 0 ==> !is_ws(trim_start(s)[0]),
    decreases s.len(),
{
    if s.len() > 0 && is_ws(s[0]) {
        lemma_trim_start_suffix(s.drop_first());
        assert(s.drop_first().subrange(
            s.drop_first().len() - trim_start(s).len(),
            s.drop_first().len() as int,
        ) == s.subrange(s.len() - trim_start(s).len(), s.len() as int));
    } else {
        assert(s.subrange(0, s.len() as int) == s);
    }
}

pub proof fn lemma_trim_end_prefix(s: Seq<char>)
    ensures
        trim_end(s).len() <= s.len(),
        trim_end(s) == s.subrange(0, trim_end(s).len() as int),
        trim_end(s).len() > 0 ==> !is_ws(trim_end(s).last()),
    decreases s.len(),
{
    if s.len() > 0 && is_ws(s.last()) {
        lemma_trim_end_prefix(s.drop_last());
        assert(s.drop_last().subrange(0, trim_end(s).len() as int) == s.subrange(
            0,
            trim_end(s).len() as int,
        ));
    } else {
        assert(s.subrange(0, s.len() as int) == s);
    }
}

/// A trimmed string has no whitespace at either end.
pub proof fn lemma_trim_ends(s: Seq<char>)
    ensures
        trim(s).len() > 0 ==> !is_ws(trim(s)[0]) && !is_ws(trim(s).last()),
        trim(s).len() <= s.len(),
{
    let u = trim_start(s);
    lemma_trim_start_suffix(s);
    lemma_trim_end_prefix(u);
    if trim(s).len() > 0 {
        assert(trim(s)[0] == u[0]);
    }
}

/// Trimming a trimmed string changes nothing.
pub proof fn lemma_trim_idempotent(s: Seq<char>)
    ensures
        trim(trim(s)) == trim(s),
{
    let t = trim(s);
    lemma_trim_ends(s);
    assert(trim_start(t) == t);
    assert(trim_end(t) == t);
}

proof fn lemma_trim_start_keeps(s: Seq<char>, k: int)
    requires
        0 <= k < s.len(),
        !is_ws(s[k]),
    ensures
        trim_start(s).len() >= s.len() - k,
    decreases s.len(),
{
    if s.len() > 0 && is_ws(s[0]) {
        assert(s.drop_first()[k - 1] == s[k]);
        lemma_trim_start_keeps(s.drop_first(), k - 1);
    }
}

proof fn lemma_trim_end_keeps(s: Seq<char>, k: int)
    requires
        0 <= k < s.len(),
        !is_ws(s[k]),
    ensures
        trim_end(s).len() > k,
    decreases s.len(),
{
    if s.len() > 0 && is_ws(s.last()) {
        assert(s.drop_last()[k] == s[k]);
        lemma_trim_end_keeps(s.drop_last(), k);
    }
}

/// A string with a character other than whitespace does not trim to nothing.
pub proof fn lemma_trim_keeps_non_ws(s: Seq<char>, k: int)
    requires
        0 <= k < s.len(),
        !is_ws(s[k]),
    ensures
        trim(s).len() > 0,
{
    let u = trim_start(s);
    lemma_trim_start_keeps(s, k);
    lemma_trim_start_suffix(s);
    let off = s.len() - u.len();
    assert(u[k - off] == s[k]);
    lemma_trim_end_keeps(u, k - off);
}

/// The characters of `trim(s)` are a contiguous part of `s`.
pub proof fn lemma_trim_is_infix(s: Seq<char>)
    ensures
        exists|a: int|
            0 <= a && a + trim(s).len() <= s.len() && #[trigger] s.subrange(a, a + trim(s).len())
                == trim(s),
{
    let u = trim_start(s);
    lemma_trim_start_suffix(s);
    lemma_trim_end_prefix(u);
    let a = s.len() - u.len();
    assert(s.subrange(a, a + trim(s).len()) == trim(s));
}

/// The characters of a string slice, in order.
pub fn to_chars(s: &str) -> (v: Vec<char>)
    ensures
        v@ == s@,
{
    let mut v: Vec<char> = Vec::new();
    for c in it: s.chars()
        invariant
            v@ == it.seq().take(it.index()),
            it.seq() == s@,
    {
        v.push(c);
    }
    v
}

/// A string holding the characters `v[start..end]`.
pub fn string_of_range(v: &[char], start: usize, end: usize) -> (s: String)
    requires
        start <= end <= v@.len(),
    ensures
        s@ == v@.subrange(start as int, end as int),
{
    let mut s = String::new();
    let mut i: usize = start;
    while i < end
        invariant
            start <= i <= end <= v@.len(),
            s@ == v@.subrange(start as int, i as int),
        decreases end - i,
    {
        s.push(v[i]);
        i += 1;
        assert(v@.subrange(start as int, i as int) == v@.subrange(start as int, i - 1).push(
            v@[i - 1],
        ));
    }
    s
}

/// `s` without its last character (unchanged when empty).
pub open spec fn popped(s: Seq<char>) -> Seq<char> {
    if s.len() > 0 {
        s.drop_last()
    } else {
        s
    }
}

/// `String::pop`, the removed character dropped.
pub fn pop_char(s: &mut String)
    ensures
        final(s)@ == popped(old(s)@),
{
    let v = to_chars(s.as_str());
    if v.len() > 0 {
        *s = string_of_range(&v, 0, v.len() - 1);
        assert(v@.subrange(0, v@.len() - 1) == v@.drop_last());
    }
}

/// A string holding the characters of `v`.
pub fn string_of(v: &[char]) -> (s: String)
    ensures
        s@ == v@,
{
    let s = string_of_range(v, 0, v.len());
    assert(v@.subrange(0, v@.len() as int) == v@);
    s
}

/// Appends all characters of `t` to `s`.
pub fn push_chars(s: &mut String, t: &[char])
    ensures
        final(s)@ == old(s)@ + t@,
{
    let mut i: usize = 0;
    while i < t.len()
        invariant
            i <= t@.len(),
            s@ == old(s)@ + t@.take(i as int),
        decreases t.len() - i,
    {
        s.push(t[i]);
        i += 1;
        assert(t@.take(i as int) == t@.take(i - 1).push(t@[i - 1]));
    }
    assert(t@.take(t@.len() as int) == t@);
}

/// Appends a string slice to `s`.
pub fn push_str(s: &mut String, t: &str)
    ensures
        final(s)@ == old(s)@ + t@,
{
    let v = to_chars(t);
    push_chars(s, &v);
}

/// Equality of two character slices.
pub fn chars_eq(a: &[char], b: &[char]) -> (r: bool)
    ensures
        r == (a@ == b@),
{
    if a.len() != b.len() {
        return false;
    }
    let mut i: usize = 0;
    while i < a.len()
        invariant
            a@.len() == b@.len(),
            i <= a@.len(),
            forall|k: int| 0 <= k < i ==> a@[k] == b@[k],
        decreases a.len() - i,
    {
        if a[i] != b[i] {
            return false;
        }
        i += 1;
    }
    assert(a@ == b@);
    true
}

/// Equality of two string slices.
pub fn str_eq(a: &str, b: &str) -> (r: bool)
    ensures
        r == (a@ == b@),
{
    let x = to_chars(a);
    let y = to_chars(b);
    chars_eq(&x, &y)
}

/// Whether `v[from..]` starts with `p`.
pub fn chars_occur_at(v: &[char], p: &[char], from: usize) -> (r: bool)
    ensures
        r == occurs_at(v@, p@, from as int),
{
    if from > v.len() || p.len() > v.len() - from {
        return false;
    }
    let mut i: usize = 0;
    while i < p.len()
        invariant
            from + p@.len() <= v@.len(),
            i <= p@.len(),
            forall|k: int| 0 <= k < i ==> v@[from + k] == p@[k],
        decreases p.len() - i,
    {
        assert(from + i < v.len());
        if v[from + i] != p[i] {
            assert(v@.subrange(from as int, from + p@.len())[i as int] != p@[i as int]);
            return false;
        }
        i += 1;
    }
    assert(v@.subrange(from as int, from + p@.len()) == p@);
    true
}

/// `str::contains` with a string pattern.
pub fn str_contains(s: &str, p: &str) -> (r: bool)
    ensures
        r == contains_seq(s@, p@),
{
    let v = to_chars(s);
    let q = to_chars(p);
    if q.len() == 0 {
        assert(s@.subrange(0, 0) =~= p@);
        assert(occurs_at(s@, p@, 0));
        return true;
    }
    if q.len() > v.len() {
        assert forall|i: int| !occurs_at(s@, p@, i) by {}
        return false;
    }
    let mut j: usize = 0;
    while j <= v.len() - q.len()
        invariant
            1 <= q@.len() <= v@.len(),
            v@ == s@,
            q@ == p@,
            j <= v@.len() - q@.len() + 1,
            forall|i: int| 0 <= i < j ==> !occurs_at(s@, p@, i),
        decreases v.len() - q.len() + 1 - j,
    {
        if chars_occur_at(&v, &q, j) {
            return true;
        }
        j += 1;
    }
    assert forall|i: int| !occurs_at(s@, p@, i) by {
        if 0 <= i < j {
        }
    }
    false
}

/// `str::starts_with` for string slices.
pub fn str_starts_with(s: &str, p: &str) -> (r: bool)
    ensures
        r == starts_with(s@, p@),
{
    let v = to_chars(s);
    let q = to_chars(p);
    let r = chars_occur_at(&v, &q, 0);
    r
}

/// Bounds of the trimmed part of `v`.
pub fn trim_bounds(v: &[char]) -> (r: (usize, usize))
    ensures
        r.0 <= r.1 <= v@.len(),
        v@.subrange(r.0 as int, r.1 as int) == trim(v@),
{
    let mut i: usize = 0;
    assert(v@.skip(0) == v@);
    while i < v.len() && is_whitespace(v[i])
        invariant
            i <= v@.len(),
            trim_start(v@) == trim_start(v@.skip(i as int)),
        decreases v.len() - i,
    {
        assert(v@.skip(i as int).drop_first() == v@.skip(i + 1));
        i += 1;
    }
    assert(trim_start(v@.skip(i as int)) == v@.skip(i as int));
    let mut j: usize = v.len();
    assert(v@.subrange(i as int, j as int) == v@.skip(i as int));
    while j > i && is_whitespace(v[j - 1])
        invariant
            i <= j <= v@.len(),
            trim_end(v@.skip(i as int)) == trim_end(v@.subrange(i as int, j as int)),
        decreases j - i,
    {
        assert(v@.subrange(i as int, j as int).drop_last() == v@.subrange(i as int, j - 1));
        j -= 1;
    }
    (i, j)
}

/// The trimmed characters of `v`.
pub fn trim_chars(v: &[char]) -> (r: Vec<char>)
    ensures
        r@ == trim(v@),
{
    let (a, b) = trim_bounds(v);
    let mut r: Vec<char> = Vec::new();
    let mut i: usize = a;
    while i < b
        invariant
            a <= i <= b <= v@.len(),
            r@ == v@.subrange(a as int, i as int),
        decreases b - i,
    {
        r.push(v[i]);
        i += 1;
        assert(v@.subrange(a as int, i as int) == v@.subrange(a as int, i - 1).push(v@[i - 1]));
    }
    r
}

/// `str::trim`, returning an owned string.
pub fn trim_str(s: &str) -> (r: String)
    ensures
        r@ == trim(s@),
{
    let v = to_chars(s);
    let (a, b) = trim_bounds(&v);
    string_of_range(&v, a, b)
}

/// The Unicode lowercase mapping of a string (`str::to_lowercase`).
pub uninterp spec fn lowercase_of(s: Seq<char>) -> Seq<char>;

/// Every character of `s` is ASCII.
pub open spec fn all_ascii(s: Seq<char>) -> bool {
    forall|i: int| 0 <= i < s.len() ==> is_ascii_char(#[trigger] s[i])
}

/// An ASCII upper-case letter made lower case; other characters unchanged.
pub open spec fn ascii_lower_char(c: char) -> char {
    if 'A' <= c && c <= 'Z' {
        ((c as u32) + 32) as char
    } else {
        c
    }
}

/// `s` with its ASCII upper-case letters made lower case.
pub open spec fn ascii_lower(s: Seq<char>) -> Seq<char> {
    s.map_values(|c: char| ascii_lower_char(c))
}

/// Calls `str::to_lowercase`; its result is named [`lowercase_of`]. Of an
/// all-ASCII string the Unicode lowercase mapping turns `A`-`Z` into
/// `a`-`z` and keeps every other character; that much is stated.
#[verifier::external_body]
pub(crate) fn to_lowercase(s: &str) -> (r: String)
    ensures
        r@ == lowercase_of(s@),
        all_ascii(s@) ==> r@ == ascii_lower(s@),
{
    s.to_lowercase()
}

/// Whether a character is alphabetic or numeric in Unicode (`char::is_alphanumeric`).
pub uninterp spec fn alphanumeric_char(c: char) -> bool;

/// Calls `char::is_alphanumeric`; its result is named [`alphanumeric_char`].
/// Among ASCII characters exactly the letters and the digits are alphabetic
/// or numeric; that much is stated.
#[verifier::external_body]
pub(crate) fn is_alphanumeric(c: char) -> (r: bool)
    ensures
        r == alphanumeric_char(c),
        is_ascii_char(c) ==> (r <==> (is_ascii_alpha(c) || is_ascii_digit(c))),
{
    c.is_alphanumeric()
}

/// `str::lines`: the lines of `s`, without their `\n` or `\r\n` endings.
pub fn split_lines(s: &str) -> (r: Vec<String>)
    ensures
        strings_view(r@) == lines(s@),
{
    let v = to_chars(s);
    let n = v.len();
    let mut out: Vec<String> = Vec::new();
    let mut from: usize = 0;
    while from < n
        invariant
            from <= n == v@.len(),
            v@ == s@,
            lines(s@) == strings_view(out@) + lines_from(s@, from as int),
        decreases n - from,
    {
        proof {
            lemma_line_end_bounds(v@, from as int);
        }
        let mut e = from;
        while e < n && v[e] != '\n'
            invariant
                from <= e <= n == v@.len(),
                v@ == s@,
                line_end(v@, from as int) == line_end(v@, e as int),
            decreases n - e,
        {
            e += 1;
        }
        if e < n {
            e += 1;
        }
        assert(e as int == line_end(v@, from as int));
        // the line without its ending
        let mut stop = e;
        if stop > from && v[stop - 1] == '\n' {
            stop -= 1;
            if stop > from && v[stop - 1] == '\r' {
                stop -= 1;
            }
        }
        let line = string_of_range(&v, from, stop);
        assert(line@ == strip_line_end(v@.subrange(from as int, e as int))) by {
            let piece = v@.subrange(from as int, e as int);
            if piece.len() > 0 && piece.last() == '\n' {
                assert(piece.drop_last() == v@.subrange(from as int, e - 1));
                if e - 1 > from && v@[e - 2] == '\r' {
                    assert(piece.drop_last().drop_last() == v@.subrange(from as int, e - 2));
                }
            }
        }
        let ghost prev = out@;
        out.push(line);
        assert(strings_view(out@) == strings_view(prev).push(line@));
        from = e;
    }
    assert(lines_from(s@, from as int) == Seq::<Seq<char>>::empty());
    out
}

/// The first position at or after `from` where the non-empty `p` occurs in `v`,
/// or `v.len()` when there is none.
pub fn find_from_exec(v: &[char], p: &[char], from: usize) -> (r: usize)
    requires
        p@.len() > 0,
        from <= v@.len(),
    ensures
        r == find_from(v@, p@, from as int),
{
    let mut j = from;
    while j <= v.len() && p.len() <= v.len() - j
        invariant
            from <= j <= v@.len() + 1,
            p@.len() > 0,
            find_from(v@, p@, from as int) == find_from(v@, p@, j as int),
        decreases v.len() + 1 - j,
    {
        if chars_occur_at(v, p, j) {
            return j;
        }
        j += 1;
    }
    v.len()
}


pub proof fn lemma_find_from(s: Seq<char>, p: Seq<char>, from: int)
    requires
        p.len() > 0,
        0 <= from,
    ensures
        find_from(s, p, from) == s.len() || (from <= find_from(s, p, from) && occurs_at(
            s,
            p,
            find_from(s, p, from),
        )),
        from <= s.len() ==> from <= find_from(s, p, from) <= s.len(),
    decreases s.len() - from,
{
    if from + p.len() <= s.len() && s.subrange(from, from + p.len()) != p {
        lemma_find_from(s, p, from + 1);
    }
}

/// `find_from` stops no later than any occurrence at or after `from`.
pub proof fn lemma_find_from_first(s: Seq<char>, p: Seq<char>, from: int, j: int)
    requires
        p.len() > 0,
        0 <= from <= j,
        occurs_at(s, p, j),
    ensures
        find_from(s, p, from) <= j,
    decreases j - from,
{
    if from + p.len() <= s.len() && s.subrange(from, from + p.len()) != p {
        assert(from != j);
        lemma_find_from_first(s, p, from + 1, j);
    }
}

/// A part of `s` that starts at `a` holds `p` only where `s` holds it.
pub proof fn lemma_occurs_in_part(s: Seq<char>, p: Seq<char>, a: int, b: int, i: int)
    requires
        0 <= a <= b <= s.len(),
        occurs_at(s.subrange(a, b), p, i),
    ensures
        occurs_at(s, p, a + i),
{
    assert(s.subrange(a + i, a + i + p.len()) =~= s.subrange(a, b).subrange(i, i + p.len()));
}

/// A part of a string without `p` has no `p` either.
pub proof fn lemma_part_lacks(s: Seq<char>, p: Seq<char>, a: int, b: int)
    requires
        0 <= a <= b <= s.len(),
        !contains_seq(s, p),
    ensures
        !contains_seq(s.subrange(a, b), p),
{
    if contains_seq(s.subrange(a, b), p) {
        let i = choose|i: int| occurs_at(s.subrange(a, b), p, i);
        lemma_occurs_in_part(s, p, a, b, i);
    }
}

/// No piece of a split holds the separator.
pub proof fn lemma_split_pieces_lack_sep(s: Seq<char>, sep: Seq<char>, from: int)
    requires
        sep.len() > 0,
        0 <= from <= s.len(),
    ensures
        forall|k: int|
            0 <= k < split_from(s, sep, from).len() ==> !contains_seq(
                #[trigger] split_from(s, sep, from)[k],
                sep,
            ),
    decreases s.len() - from,
{
    let k0 = find_from(s, sep, from);
    lemma_find_from(s, sep, from);
    let last = k0 + sep.len() > s.len();
    let piece = if last {
        s.subrange(from, s.len() as int)
    } else {
        s.subrange(from, k0)
    };
    let end = if last {
        s.len() as int
    } else {
        k0
    };
    assert(piece == s.subrange(from, end));
    if contains_seq(piece, sep) {
        let i = choose|i: int| occurs_at(piece, sep, i);
        lemma_occurs_in_part(s, sep, from, end, i);
        lemma_find_from_first(s, sep, from, from + i);
    }
    if !last {
        lemma_split_pieces_lack_sep(s, sep, k0 + sep.len());
        let rest = split_from(s, sep, k0 + sep.len());
        assert forall|k: int|
            0 <= k < split_from(s, sep, from).len() implies !contains_seq(
                #[trigger] split_from(s, sep, from)[k],
                sep,
            ) by {
            if k > 0 {
                assert(split_from(s, sep, from)[k] == rest[k - 1]);
            }
        }
    }
}

/// `s` without its trailing `/` characters.
pub open spec fn trim_end_slashes(s: Seq<char>) -> Seq<char>
    decreases s.len(),
{
    if s.len() > 0 && s.last() == '/' {
        trim_end_slashes(s.drop_last())
    } else {
        s
    }
}

/// `str::trim_end_matches('/')` on characters.
pub fn trim_end_slashes_chars(v: &[char]) -> (r: Vec<char>)
    ensures
        r@ == trim_end_slashes(v@),
{
    let mut j: usize = v.len();
    assert(v@.take(j as int) == v@);
    while j > 0 && v[j - 1] == '/'
        invariant
            j <= v@.len(),
            trim_end_slashes(v@) == trim_end_slashes(v@.take(j as int)),
        decreases j,
    {
        assert(v@.take(j as int).drop_last() == v@.take(j - 1));
        j -= 1;
    }
    let mut r: Vec<char> = Vec::new();
    let mut i: usize = 0;
    while i < j
        invariant
            i <= j <= v@.len(),
            r@ == v@.take(i as int),
        decreases j - i,
    {
        r.push(v[i]);
        i += 1;
        assert(v@.take(i as int) == v@.take(i - 1).push(v@[i - 1]));
    }
    assert(trim_end_slashes(v@.take(j as int)) == v@.take(j as int));
    r
}

/// The decimal digits of `n`.
pub open spec fn decimal_digits(n: nat) -> Seq<char>
    decreases n,
{
    if n < 10 {
        seq![(48 + n) as char]
    } else {
        decimal_digits(n / 10) + seq![(48 + n % 10) as char]
    }
}

/// Appends the decimal digits of `n` to `s`.
pub fn push_decimal(s: &mut String, n: usize)
    ensures
        final(s)@ == old(s)@ + decimal_digits(n as nat),
    decreases n,
{
    if n >= 10 {
        push_decimal(s, n / 10);
    }
    let d: u8 = (n % 10) as u8;
    s.push((48u8 + d) as char);
}

/// The pieces of `s` between the occurrences of the non-empty `sep` (`str::split`).
pub fn split_by(s: &str, sep: &str) -> (r: Vec<String>)
    requires
        sep@.len() > 0,
    ensures
        strings_view(r@) == split_str(s@, sep@),
{
    let v = to_chars(s);
    let p = to_chars(sep);
    let mut out: Vec<String> = Vec::new();
    let mut from: usize = 0;
    loop
        invariant_except_break
            from <= v@.len(),
            split_str(v@, p@) == strings_view(out@) + split_from(v@, p@, from as int),
        invariant
            p@.len() > 0,
            v@ == s@,
            p@ == sep@,
        ensures
            strings_view(out@) == split_str(v@, p@),
        decreases v@.len() - from,
    {
        let k = find_from_exec(&v, &p, from);
        proof {
            lemma_find_from(v@, p@, from as int);
        }
        if k >= v.len() {
            assert(split_from(v@, p@, from as int) == seq![v@.subrange(from as int, v@.len() as int)]);
            let piece = string_of_range(&v, from, v.len());
            let ghost prev = out@;
            out.push(piece);
            assert(strings_view(out@) == strings_view(prev).push(piece@));
            assert(strings_view(out@) == strings_view(prev) + seq![piece@]);
            break;
        }
        let piece = string_of_range(&v, from, k);
        let ghost prev = out@;
        out.push(piece);
        assert(strings_view(out@) == strings_view(prev).push(piece@));
        assert(split_from(v@, p@, from as int) == seq![v@.subrange(from as int, k as int)] + split_from(
            v@,
            p@,
            k + p@.len(),
        ));
        assert(strings_view(prev) + (seq![v@.subrange(from as int, k as int)] + split_from(
            v@,
            p@,
            k + p@.len(),
        )) == strings_view(out@) + split_from(v@, p@, k + p@.len()));
        from = k + p.len();
    }
    out
}

/// `parts` joined with `sep` between consecutive parts (`[String]::join`).
pub fn join_strings(parts: &Vec<String>, sep: &str) -> (r: String)
    ensures
        r@ == join(strings_view(parts@), sep@),
{
    let mut out = String::new();
    let mut i: usize = 0;
    while i < parts.len()
        invariant
            i <= parts@.len(),
            out@ == join(strings_view(parts@.take(i as int)), sep@),
        decreases parts.len() - i,
    {
        if i > 0 {
            push_str(&mut out, sep);
        }
        push_str(&mut out, parts[i].as_str());
        i += 1;
        assert(strings_view(parts@.take(i as int)).drop_last() == strings_view(parts@.take(i - 1)));
        assert(strings_view(parts@.take(i as int)).last() == parts@[i - 1]@);
        if i == 1 {
            assert(strings_view(parts@.take(0)) == Seq::<Seq<char>>::empty());
        }
    }
    assert(parts@.take(parts@.len() as int) == parts@);
    out
}

/// `s` with every occurrence of the non-empty `from` replaced by `to`, left
/// to right without overlapping (`str::replace`).
pub open spec fn replaced(s: Seq<char>, from: Seq<char>, to: Seq<char>) -> Seq<char> {
    join(split_str(s, from), to)
}

/// `str::replace` with a non-empty pattern.
pub fn replace_str(s: &str, from: &str, to: &str) -> (r: String)
    requires
        from@.len() > 0,
    ensures
        r@ == replaced(s@, from@, to@),
{
    let pieces = split_by(s, from);
    join_strings(&pieces, to)
}

} // verus!
