//! Character-level predicates on text, each with the mathematical statement it computes.
//!
//! Text is modelled as `Seq<char>`. Executable functions work on a `Vec<char>` obtained
//! once from a `&str`, so that every character is reached in constant time.

use vstd::prelude::*;

verus! {

/// `p` is an initial segment of `s`.
pub open spec fn starts_with(s: Seq<char>, p: Seq<char>) -> bool {
    p.len() <= s.len() && s.subrange(0, p.len() as int) == p
}

/// `p` is a final segment of `s`.
pub open spec fn ends_with(s: Seq<char>, p: Seq<char>) -> bool {
    p.len() <= s.len() && s.subrange(s.len() - p.len(), s.len() as int) == p
}

/// The least index at which `c` occurs in `s`, or `s.len()` where it does not occur.
pub open spec fn first_of(s: Seq<char>, c: char) -> int
    decreases s.len(),
{
    if s.len() == 0 {
        0
    } else if s[0] == c {
        0
    } else {
        1 + first_of(s.drop_first(), c)
    }
}

/// The greatest index at which `a` or `b` occurs in `s`, or `-1` where neither occurs.
pub open spec fn last_of(s: Seq<char>, a: char, b: char) -> int
    decreases s.len(),
{
    if s.len() == 0 {
        -1
    } else if s.last() == a || s.last() == b {
        s.len() - 1
    } else {
        last_of(s.drop_last(), a, b)
    }
}

/// An upper-case ASCII letter becomes its lower-case form; every other character stays.
pub open spec fn fold_char(c: char) -> char {
    if 'A' <= c && c <= 'Z' {
        ((c as u8) + 32u8) as char
    } else {
        c
    }
}

/// `s` with every character folded to lower case.
pub open spec fn folded(s: Seq<char>) -> Seq<char> {
    Seq::new(s.len(), |i: int| fold_char(s[i]))
}

/// `a` and `b` are the same text up to the case of ASCII letters.
pub open spec fn same_ignoring_case(a: Seq<char>, b: Seq<char>) -> bool {
    folded(a) == folded(b)
}

/// `needle` occurs at index `at` of `hay`, up to the case of ASCII letters.
pub open spec fn occurs_at(hay: Seq<char>, needle: Seq<char>, at: int) -> bool {
    0 <= at && at + needle.len() <= hay.len() && same_ignoring_case(
        hay.subrange(at, at + needle.len()),
        needle,
    )
}

/// `needle` occurs somewhere in `hay`, up to the case of ASCII letters.
pub open spec fn mentions(hay: Seq<char>, needle: Seq<char>) -> bool {
    exists|at: int| occurs_at(hay, needle, at)
}

/// The views of a sequence of strings, in order.
pub open spec fn texts(v: Seq<String>) -> Seq<Seq<char>> {
    Seq::new(v.len(), |i: int| v[i]@)
}

/// The views of a sequence of pairs of strings, in order.
pub open spec fn pair_views(v: Seq<(String, String)>) -> Seq<(Seq<char>, Seq<char>)> {
    Seq::new(v.len(), |i: int| (v[i].0@, v[i].1@))
}

/// `first_of` is an index of `s` exactly where `c` occurs, and then the least such.
pub proof fn lemma_first_of(s: Seq<char>, c: char)
    ensures
        0 <= first_of(s, c) <= s.len(),
        first_of(s, c) < s.len() ==> s[first_of(s, c)] == c,
        forall|k: int| 0 <= k < first_of(s, c) ==> s[k] != c,
    decreases s.len(),
{
    if s.len() > 0 && s[0] != c {
        let rest = s.drop_first();
        lemma_first_of(rest, c);
        assert forall|k: int| 0 <= k < first_of(s, c) implies s[k] != c by {
            if k > 0 {
                assert(rest[k - 1] == s[k]);
            }
        }
    }
}

/// An index that holds `c` with no earlier occurrence is `first_of`.
pub proof fn lemma_first_of_is(s: Seq<char>, c: char, at: int)
    requires
        0 <= at <= s.len(),
        at < s.len() ==> s[at] == c,
        forall|k: int| 0 <= k < at ==> s[k] != c,
    ensures
        first_of(s, c) == at,
{
    lemma_first_of(s, c);
    let f = first_of(s, c);
    if f < at {
        assert(s[f] != c);
    }
}

/// `last_of` is an index of `s` exactly where `a` or `b` occurs, and then the greatest such.
pub proof fn lemma_last_of(s: Seq<char>, a: char, b: char)
    ensures
        -1 <= last_of(s, a, b) < s.len(),
        last_of(s, a, b) >= 0 ==> (s[last_of(s, a, b)] == a || s[last_of(s, a, b)] == b),
        forall|k: int| last_of(s, a, b) < k < s.len() ==> s[k] != a && s[k] != b,
    decreases s.len(),
{
    if s.len() > 0 && !(s.last() == a || s.last() == b) {
        let rest = s.drop_last();
        lemma_last_of(rest, a, b);
        assert forall|k: int| last_of(s, a, b) < k < s.len() implies s[k] != a && s[k] != b by {
            if k < rest.len() {
                assert(rest[k] == s[k]);
            }
        }
    }
}

/// An index that holds `a` or `b` with no later occurrence is `last_of`; `-1` where none is.
pub proof fn lemma_last_of_is(s: Seq<char>, a: char, b: char, at: int)
    requires
        -1 <= at < s.len(),
        at >= 0 ==> (s[at] == a || s[at] == b),
        forall|k: int| at < k < s.len() ==> s[k] != a && s[k] != b,
    ensures
        last_of(s, a, b) == at,
{
    lemma_last_of(s, a, b);
    let l = last_of(s, a, b);
    if l > at {
        assert(s[l] != a && s[l] != b);
    }
}

/// The characters of `s`, in order.
pub fn chars_of(s: &str) -> (r: Vec<char>)
    ensures
        r@ == s@,
{
    let mut out: Vec<char> = Vec::new();
    for c in it: s.chars()
        invariant
            out@ == it.seq().take(it.index() as int),
    {
        out.push(c);
    }
    out
}

/// The text of `s` from character `from` up to, and without, character `to`.
pub fn slice_of(s: &str, from: usize, to: usize) -> (r: String)
    requires
        from <= to <= s@.len(),
    ensures
        r@ == s@.subrange(from as int, to as int),
{
    s.substring_char(from, to).to_owned()
}

/// A copy of `s`.
pub fn owned(s: &str) -> (r: String)
    ensures
        r@ == s@,
{
    s.to_owned()
}

/// Whether `a` and `b` hold the same text.
pub fn same_text(a: &String, b: &String) -> (r: bool)
    ensures
        r == (a@ == b@),
{
    *a == *b
}

/// Whether `s` begins with `p`.
pub fn has_prefix(s: &Vec<char>, p: &str) -> (r: bool)
    ensures
        r == starts_with(s@, p@),
{
    let pattern = chars_of(p);
    if pattern.len() > s.len() {
        return false;
    }
    let mut i: usize = 0;
    while i < pattern.len()
        invariant
            i <= pattern.len() <= s.len(),
            pattern@ == p@,
            forall|k: int| 0 <= k < i ==> s@[k] == pattern@[k],
        decreases pattern.len() - i,
    {
        if s[i] != pattern[i] {
            return false;
        }
        i = i + 1;
    }
    proof {
        assert(s@.subrange(0, pattern@.len() as int) =~= pattern@);
    }
    true
}

/// Whether `s` ends with `p`.
pub fn has_suffix(s: &Vec<char>, p: &str) -> (r: bool)
    ensures
        r == ends_with(s@, p@),
{
    let pattern = chars_of(p);
    if pattern.len() > s.len() {
        return false;
    }
    let base: usize = s.len() - pattern.len();
    let mut i: usize = 0;
    while i < pattern.len()
        invariant
            i <= pattern.len() <= s.len(),
            pattern@ == p@,
            base == s.len() - pattern.len(),
            forall|k: int| 0 <= k < i ==> s@[base + k] == pattern@[k],
        decreases pattern.len() - i,
    {
        if s[base + i] != pattern[i] {
            return false;
        }
        i = i + 1;
    }
    proof {
        assert(s@.subrange(s@.len() - pattern@.len(), s@.len() as int) =~= pattern@);
    }
    true
}

/// The index of the first `c` in `s`; the length of `s` where there is none.
pub fn find_first(s: &Vec<char>, c: char) -> (r: usize)
    ensures
        r == first_of(s@, c),
{
    let mut i: usize = 0;
    while i < s.len() && s[i] != c
        invariant
            i <= s.len(),
            forall|k: int| 0 <= k < i ==> s@[k] != c,
        decreases s.len() - i,
    {
        i = i + 1;
    }
    proof {
        lemma_first_of_is(s@, c, i as int);
    }
    i
}

/// The index of the last `a` or `b` in `s`, if there is one.
pub fn find_last(s: &Vec<char>, a: char, b: char) -> (r: Option<usize>)
    ensures
        match r {
            Some(at) => last_of(s@, a, b) == at && at < s@.len(),
            None => last_of(s@, a, b) == -1,
        },
{
    let mut i: usize = s.len();
    while i > 0 && s[i - 1] != a && s[i - 1] != b
        invariant
            i <= s.len(),
            forall|k: int| i <= k < s.len() ==> s@[k] != a && s@[k] != b,
        decreases i,
    {
        i = i - 1;
    }
    proof {
        lemma_last_of_is(s@, a, b, i as int - 1);
    }
    if i == 0 {
        None
    } else {
        Some(i - 1)
    }
}

/// `c`, in lower case where it is an upper-case ASCII letter.
pub fn lower(c: char) -> (r: char)
    ensures
        r == fold_char(c),
{
    if c >= 'A' && c <= 'Z' {
        ((c as u8) + 32u8) as char
    } else {
        c
    }
}

/// Whether `needle` stands at index `at` of `hay`, up to the case of ASCII letters.
pub fn matches_at(hay: &Vec<char>, needle: &Vec<char>, at: usize) -> (r: bool)
    requires
        at + needle.len() <= hay.len(),
    ensures
        r == occurs_at(hay@, needle@, at as int),
{
    let ghost window = hay@.subrange(at as int, at + needle.len());
    let mut i: usize = 0;
    while i < needle.len()
        invariant
            i <= needle.len(),
            at + needle.len() <= hay.len(),
            window == hay@.subrange(at as int, at + needle.len()),
            forall|k: int| 0 <= k < i ==> fold_char(hay@[at + k]) == fold_char(needle@[k]),
        decreases needle.len() - i,
    {
        if lower(hay[at + i]) != lower(needle[i]) {
            proof {
                assert(folded(window)[i as int] != folded(needle@)[i as int]);
            }
            return false;
        }
        i = i + 1;
    }
    proof {
        assert(folded(window) =~= folded(needle@));
    }
    true
}

/// Whether `a` and `b` are the same text up to the case of ASCII letters.
pub fn equals_ignoring_case(a: &Vec<char>, b: &Vec<char>) -> (r: bool)
    ensures
        r == same_ignoring_case(a@, b@),
{
    if a.len() != b.len() {
        proof {
            assert(folded(a@).len() != folded(b@).len());
        }
        return false;
    }
    proof {
        assert(a@.subrange(0, 0 + b@.len() as int) =~= a@);
    }
    matches_at(a, b, 0)
}

/// Whether `needle` occurs in `hay`, up to the case of ASCII letters.
pub fn contains_ignoring_case(hay: &Vec<char>, needle: &Vec<char>) -> (r: bool)
    ensures
        r == mentions(hay@, needle@),
{
    if needle.len() > hay.len() {
        return false;
    }
    let last: usize = hay.len() - needle.len();
    let mut at: usize = 0;
    loop
        invariant
            at <= last,
            last == hay.len() - needle.len(),
            forall|k: int| 0 <= k < at ==> !occurs_at(hay@, needle@, k),
        decreases last - at,
    {
        if matches_at(hay, needle, at) {
            return true;
        }
        if at == last {
            return false;
        }
        at = at + 1;
    }
}

} // verus!
