//! Sequences kept free of duplicates: an element is added only where it is not yet there.

use vstd::prelude::*;

verus! {

/// `s` with `a` at its end, unless `a` already stands in `s`.
pub open spec fn push_if_missing<A>(s: Seq<A>, a: A) -> Seq<A> {
    if s.contains(a) {
        s
    } else {
        s.push(a)
    }
}

/// The least index at which `a` stands in `s`, or `s.len()` where it does not.
pub open spec fn index_in<A>(s: Seq<A>, a: A) -> int
    decreases s.len(),
{
    if s.len() == 0 {
        0
    } else if s[0] == a {
        0
    } else {
        1 + index_in(s.drop_first(), a)
    }
}

/// `index_in` is an index of `s` exactly where `a` stands in `s`, and then the least.
pub proof fn lemma_index_in<A>(s: Seq<A>, a: A)
    ensures
        0 <= index_in(s, a) <= s.len(),
        index_in(s, a) < s.len() <==> s.contains(a),
        index_in(s, a) < s.len() ==> s[index_in(s, a)] == a,
        forall|k: int| 0 <= k < index_in(s, a) ==> s[k] != a,
    decreases s.len(),
{
    if s.len() > 0 && s[0] != a {
        let rest = s.drop_first();
        lemma_index_in(rest, a);
        assert forall|k: int| 0 <= k < index_in(s, a) implies s[k] != a by {
            if k > 0 {
                assert(rest[k - 1] == s[k]);
            }
        }
        if rest.contains(a) {
            let i = choose|i: int| 0 <= i < rest.len() && rest[i] == a;
            assert(s[i + 1] == a);
        }
        if s.contains(a) {
            let i = choose|i: int| 0 <= i < s.len() && s[i] == a;
            assert(rest[i - 1] == a);
        }
    }
}

/// An index that holds `a` with no earlier occurrence is `index_in`.
pub proof fn lemma_index_in_is<A>(s: Seq<A>, a: A, at: int)
    requires
        0 <= at <= s.len(),
        at < s.len() ==> s[at] == a,
        forall|k: int| 0 <= k < at ==> s[k] != a,
    ensures
        index_in(s, a) == at,
{
    lemma_index_in(s, a);
    let f = index_in(s, a);
    if f < at {
        assert(s[f] != a);
    }
}

/// Adding a missing element keeps a sequence free of duplicates, and the element is in it.
pub proof fn lemma_push_if_missing<A>(s: Seq<A>, a: A)
    requires
        s.no_duplicates(),
    ensures
        push_if_missing(s, a).no_duplicates(),
        push_if_missing(s, a).contains(a),
        forall|x: A| s.contains(x) ==> push_if_missing(s, x) == s,
        forall|x: A| s.contains(x) ==> push_if_missing(s, a).contains(x),
{
    let r = push_if_missing(s, a);
    if !s.contains(a) {
        assert(r[s.len() as int] == a);
        assert forall|x: A| s.contains(x) implies r.contains(x) by {
            let i = choose|i: int| 0 <= i < s.len() && s[i] == x;
            assert(r[i] == x);
        }
    }
}

/// Adding the same element a second time changes nothing.
pub proof fn lemma_push_if_missing_twice<A>(s: Seq<A>, a: A)
    ensures
        push_if_missing(push_if_missing(s, a), a) == push_if_missing(s, a),
{
    let r = push_if_missing(s, a);
    if !s.contains(a) {
        assert(r[s.len() as int] == a);
    }
}

} // verus!
