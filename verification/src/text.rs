//! Character sequences: the view of a string, and searching in it.

use vstd::prelude::*;

verus! {

/// Whether `needle` stands in `hay` at position `at`.
pub open spec fn occurs_at(hay: Seq<char>, needle: Seq<char>, at: int) -> bool {
    &&& 0 <= at
    &&& at + needle.len() <= hay.len()
    &&& hay.subrange(at, at + needle.len()) == needle
}

/// Whether `needle` stands somewhere in `hay`.
pub open spec fn occurs_in(hay: Seq<char>, needle: Seq<char>) -> bool {
    exists|at: int| occurs_at(hay, needle, at)
}

/// Whether `s` begins with `prefix`.
pub open spec fn has_prefix(s: Seq<char>, prefix: Seq<char>) -> bool {
    occurs_at(s, prefix, 0)
}

/// Whether `s` ends with `suffix`.
pub open spec fn has_suffix(s: Seq<char>, suffix: Seq<char>) -> bool {
    occurs_at(s, suffix, s.len() - suffix.len())
}

/// What is left of `s` once every trailing repetition of `suffix` is
/// removed. An empty suffix removes nothing.
pub open spec fn trim_end(s: Seq<char>, suffix: Seq<char>) -> Seq<char>
    decreases s.len(),
{
    if suffix.len() > 0 && has_suffix(s, suffix) {
        trim_end(s.take(s.len() - suffix.len()), suffix)
    } else {
        s
    }
}

/// Strict lexicographic order by code point, with `at` as the first position
/// where the two sequences part.
pub open spec fn parts_below(a: Seq<char>, b: Seq<char>, at: int) -> bool {
    &&& 0 <= at <= a.len()
    &&& at < b.len()
    &&& a.take(at) == b.take(at)
    &&& (at == a.len() || (a[at] as u32) < (b[at] as u32))
}

/// Strict lexicographic order by code point, which for strings is the order
/// of their UTF-8 bytes.
pub open spec fn lex_below(a: Seq<char>, b: Seq<char>) -> bool {
    exists|at: int| parts_below(a, b, at)
}

/// Nothing lies below itself.
pub proof fn lemma_lex_below_irreflexive(a: Seq<char>)
    ensures
        !lex_below(a, a),
{
}

/// The order is transitive.
pub proof fn lemma_lex_below_transitive(a: Seq<char>, b: Seq<char>, c: Seq<char>)
    requires
        lex_below(a, b),
        lex_below(b, c),
    ensures
        lex_below(a, c),
{
    let k1 = choose|at: int| parts_below(a, b, at);
    let k2 = choose|at: int| parts_below(b, c, at);
    let k = if k1 <= k2 { k1 } else { k2 };
    assert forall|i: int| 0 <= i < k1 implies a[i] == b[i] by {
        assert(a.take(k1)[i] == b.take(k1)[i]);
    }
    assert forall|i: int| 0 <= i < k2 implies b[i] == c[i] by {
        assert(b.take(k2)[i] == c.take(k2)[i]);
    }
    assert(a.take(k) =~= c.take(k));
    assert(parts_below(a, c, k));
}

/// The lower-case form of a character sequence, as the standard library's
/// Unicode case mapping gives it.
pub uninterp spec fn lowercase(s: Seq<char>) -> Seq<char>;

/// Calls `str::to_lowercase`. The contract only names the result: the
/// mapping is a fixed function of the characters and is not spelled out.
#[verifier::external_body]
pub(crate) fn to_lowercase(s: &str) -> (r: String)
    ensures
        r@ == lowercase(s@),
{
    s.to_lowercase()
}

/// The characters of a string, in order.
pub fn chars_of(s: &str) -> (v: Vec<char>)
    ensures
        v@ == s@,
{
    let mut v: Vec<char> = Vec::new();
    for c in it: s.chars()
        invariant
            it.seq() == s@,
            v@ == it.seq().take(it.index() as int),
    {
        v.push(c);
    }
    v
}

/// Whether `needle` stands in `hay` at position `at`.
pub fn matches_at(hay: &Vec<char>, needle: &Vec<char>, at: usize) -> (b: bool)
    ensures
        b == occurs_at(hay@, needle@, at as int),
{
    if needle.len() > hay.len() || at > hay.len() - needle.len() {
        return false;
    }
    let mut k: usize = 0;
    while k < needle.len()
        invariant
            k <= needle.len(),
            at + needle.len() <= hay.len(),
            forall|j: int| 0 <= j < k ==> hay@[at + j] == needle@[j],
        decreases needle.len() - k,
    {
        if hay[at + k] != needle[k] {
            assert(hay@.subrange(at as int, at + needle.len())[k as int] != needle@[k as int]);
            return false;
        }
        k += 1;
    }
    assert(hay@.subrange(at as int, at + needle.len()) =~= needle@);
    true
}

/// The first position at which `needle` stands in `hay`.
pub fn find(hay: &Vec<char>, needle: &Vec<char>) -> (r: Option<usize>)
    ensures
        r is Some <==> occurs_in(hay@, needle@),
        r matches Some(at) ==> occurs_at(hay@, needle@, at as int) && forall|j: int|
            0 <= j < at ==> !occurs_at(hay@, needle@, j),
{
    if needle.len() > hay.len() {
        return None;
    }
    let last: usize = hay.len() - needle.len();
    let mut at: usize = 0;
    loop
        invariant
            at <= last,
            last == hay.len() - needle.len(),
            forall|j: int| 0 <= j < at ==> !occurs_at(hay@, needle@, j),
        decreases last - at,
    {
        if matches_at(hay, needle, at) {
            return Some(at);
        }
        if at == last {
            return None;
        }
        at += 1;
    }
}

/// Whether `needle` stands somewhere in `hay`.
pub fn contains(hay: &Vec<char>, needle: &Vec<char>) -> (b: bool)
    ensures
        b == occurs_in(hay@, needle@),
{
    find(hay, needle).is_some()
}

/// Whether `s` begins with `prefix`.
pub fn starts_with(s: &Vec<char>, prefix: &Vec<char>) -> (b: bool)
    ensures
        b == has_prefix(s@, prefix@),
{
    matches_at(s, prefix, 0)
}

/// Whether `s` ends with `suffix`.
pub fn ends_with(s: &Vec<char>, suffix: &Vec<char>) -> (b: bool)
    ensures
        b == has_suffix(s@, suffix@),
{
    if suffix.len() > s.len() {
        return false;
    }
    matches_at(s, suffix, s.len() - suffix.len())
}

/// Whether two character sequences are the same.
pub fn same(a: &Vec<char>, b: &Vec<char>) -> (r: bool)
    ensures
        r == (a@ == b@),
{
    if a.len() != b.len() {
        return false;
    }
    let r = matches_at(a, b, 0);
    assert(a@.subrange(0, a@.len() as int) =~= a@);
    r
}

/// Removes every trailing repetition of `suffix` from `s`.
pub fn trim_end_matches(s: &mut Vec<char>, suffix: &Vec<char>)
    ensures
        final(s)@ == trim_end(old(s)@, suffix@),
{
    if suffix.len() == 0 {
        return;
    }
    while ends_with(s, suffix)
        invariant
            suffix.len() > 0,
            trim_end(s@, suffix@) == trim_end(old(s)@, suffix@),
        decreases s.len(),
    {
        let keep: usize = s.len() - suffix.len();
        s.truncate(keep);
    }
}

/// Whether a character is white space in a classifier's answer: a blank, a
/// tab, or the end of a line.
pub open spec fn is_space(c: char) -> bool {
    c == ' ' || c == '\t' || c == '\n' || c == '\r'
}

/// The number of white-space characters that `s` begins with.
pub open spec fn leading_spaces(s: Seq<char>) -> nat
    decreases s.len(),
{
    if s.len() > 0 && is_space(s.first()) {
        1 + leading_spaces(s.drop_first())
    } else {
        0
    }
}

/// The number of white-space characters that `s` ends with.
pub open spec fn trailing_spaces(s: Seq<char>) -> nat
    decreases s.len(),
{
    if s.len() > 0 && is_space(s.last()) {
        1 + trailing_spaces(s.drop_last())
    } else {
        0
    }
}

/// `s` without the white space at its beginning and at its end.
pub open spec fn trimmed(s: Seq<char>) -> Seq<char> {
    let rest = s.skip(leading_spaces(s) as int);
    rest.take(rest.len() - trailing_spaces(rest))
}

/// Whether `c` stands at position `i` of `s`, and nowhere before.
pub open spec fn first_at(s: Seq<char>, c: char, i: int) -> bool {
    &&& 0 <= i < s.len()
    &&& s[i] == c
    &&& forall|j: int| 0 <= j < i ==> s[j] != c
}

/// The first position of `c` in `s`, where it occurs.
pub open spec fn position_of(s: Seq<char>, c: char) -> int {
    choose|i: int| first_at(s, c, i)
}

/// Whether a character is white space.
pub fn char_is_space(c: char) -> (b: bool)
    ensures
        b == is_space(c),
{
    c == ' ' || c == '\t' || c == '\n' || c == '\r'
}

/// The characters of `s` from position `from` up to position `to`.
pub(crate) fn slice(s: &Vec<char>, from: usize, to: usize) -> (r: Vec<char>)
    requires
        from <= to <= s@.len(),
    ensures
        r@ == s@.subrange(from as int, to as int),
{
    let mut r: Vec<char> = Vec::new();
    let mut i: usize = from;
    while i < to
        invariant
            from <= i <= to,
            to <= s@.len(),
            r@ == s@.subrange(from as int, i as int),
        decreases to - i,
    {
        r.push(s[i]);
        assert(s@.subrange(from as int, i as int).push(s@[i as int]) =~= s@.subrange(
            from as int,
            i + 1,
        ));
        i += 1;
    }
    r
}

/// `s` without the white space at its beginning and at its end.
pub fn trim(s: &Vec<char>) -> (r: Vec<char>)
    ensures
        r@ == trimmed(s@),
{
    let mut from: usize = 0;
    assert(s@.skip(0) =~= s@);
    while from < s.len() && char_is_space(s[from])
        invariant
            from <= s@.len(),
            leading_spaces(s@) == from + leading_spaces(s@.skip(from as int)),
        decreases s.len() - from,
    {
        assert(s@.skip(from as int).drop_first() =~= s@.skip(from + 1));
        from += 1;
    }
    let ghost rest = s@.skip(from as int);
    assert(leading_spaces(s@) == from);
    let mut to: usize = s.len();
    assert(rest.take(rest.len() as int) =~= rest);
    while to > from && char_is_space(s[to - 1])
        invariant
            from <= to <= s@.len(),
            rest == s@.skip(from as int),
            trailing_spaces(rest) == (s@.len() - to) + trailing_spaces(rest.take(to - from)),
        decreases to,
    {
        assert(rest.take(to - from).last() == s@[to - 1]);
        assert(rest.take(to - from).drop_last() =~= rest.take(to - 1 - from));
        to -= 1;
    }
    proof {
        if to > from {
            assert(rest.take(to - from).last() == s@[to - 1]);
        }
        assert(trailing_spaces(rest) == s@.len() - to);
        assert(rest.take(rest.len() - trailing_spaces(rest)) =~= s@.subrange(
            from as int,
            to as int,
        ));
    }
    slice(s, from, to)
}

/// The first position of `c` in `s` at or after `from`.
pub(crate) fn find_char(s: &Vec<char>, c: char, from: usize) -> (r: Option<usize>)
    requires
        from <= s@.len(),
    ensures
        match r {
            Some(i) => from <= i < s@.len() && first_at(s@.skip(from as int), c, i - from),
            None => forall|j: int| !first_at(s@.skip(from as int), c, j),
        },
{
    let mut i: usize = from;
    while i < s.len()
        invariant
            from <= i <= s@.len(),
            forall|j: int| from <= j < i ==> s@[j] != c,
        decreases s.len() - i,
    {
        if s[i] == c {
            assert forall|j: int| 0 <= j < i - from implies s@.skip(from as int)[j] != c by {
                assert(s@.skip(from as int)[j] == s@[from + j]);
            }
            return Some(i);
        }
        i += 1;
    }
    assert forall|j: int| !first_at(s@.skip(from as int), c, j) by {
        if 0 <= j < s@.len() - from {
            assert(s@.skip(from as int)[j] == s@[from + j]);
        }
    }
    None
}

} // verus!
