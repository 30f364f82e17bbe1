use vstd::prelude::*;

verus! {

/// Filtering a sequence with one more element at its end keeps that element exactly when
/// it passes the predicate.
pub proof fn lemma_filter_push<A>(s: Seq<A>, x: A, p: spec_fn(A) -> bool)
    ensures
        s.push(x).filter(p) == (if p(x) { s.filter(p).push(x) } else { s.filter(p) }),
{
    reveal(Seq::filter);
    assert(s.push(x).drop_last() =~= s);
}

/// The prefix of length `i + 1` is the prefix of length `i` with the element at `i` added.
pub proof fn lemma_take_push<A>(s: Seq<A>, i: int)
    requires
        0 <= i < s.len(),
    ensures
        s.take(i + 1) == s.take(i).push(s[i]),
{
    assert(s.take(i + 1) =~= s.take(i).push(s[i]));
}

/// An element belongs to the filtered sequence exactly when it belongs to the sequence
/// and passes the predicate.
pub proof fn lemma_filter_contains<A>(s: Seq<A>, p: spec_fn(A) -> bool, x: A)
    ensures
        s.filter(p).contains(x) <==> (s.contains(x) && p(x)),
    decreases s.len(),
{
    reveal(Seq::filter);
    if s.len() > 0 {
        lemma_filter_contains(s.drop_last(), p, x);
        assert(s =~= s.drop_last().push(s.last()));
        if s.filter(p).contains(x) {
            if p(s.last()) {
                assert(s.filter(p) == s.drop_last().filter(p).push(s.last()));
                let k = choose|k: int| 0 <= k < s.filter(p).len() && s.filter(p)[k] == x;
                if k < s.drop_last().filter(p).len() {
                    assert(s.drop_last().filter(p)[k] == x);
                    assert(s.drop_last().filter(p).contains(x));
                    let j = choose|j: int| 0 <= j < s.drop_last().len() && s.drop_last()[j] == x;
                    assert(s[j] == x);
                } else {
                    assert(x == s.last());
                    assert(s[s.len() - 1] == x);
                }
            } else {
                assert(s.drop_last().filter(p).contains(x));
                let j = choose|j: int| 0 <= j < s.drop_last().len() && s.drop_last()[j] == x;
                assert(s[j] == x);
            }
        }
        if s.contains(x) && p(x) {
            let j = choose|j: int| 0 <= j < s.len() && s[j] == x;
            if j < s.len() - 1 {
                assert(s.drop_last()[j] == x);
                assert(s.drop_last().contains(x));
                assert(s.drop_last().filter(p).contains(x));
                let k = choose|k: int|
                    0 <= k < s.drop_last().filter(p).len() && s.drop_last().filter(p)[k] == x;
                if p(s.last()) {
                    assert(s.filter(p)[k] == x);
                } else {
                    assert(s.filter(p)[k] == x);
                }
            } else {
                assert(s.filter(p) == s.drop_last().filter(p).push(s.last()));
                assert(s.filter(p)[s.filter(p).len() - 1] == x);
            }
        }
    }
}


/// A filter that no element passes gives the empty sequence.
pub proof fn lemma_filter_none<A>(s: Seq<A>, p: spec_fn(A) -> bool)
    requires
        forall|i: int| 0 <= i < s.len() ==> !p(s[i]),
    ensures
        s.filter(p) == Seq::<A>::empty(),
    decreases s.len(),
{
    reveal(Seq::filter);
    if s.len() > 0 {
        lemma_filter_none(s.drop_last(), p);
        assert(s.filter(p) =~= Seq::<A>::empty());
    } else {
        assert(s.filter(p) =~= Seq::<A>::empty());
    }
}

/// A filter that every element passes changes nothing.
pub proof fn lemma_filter_all<A>(s: Seq<A>, p: spec_fn(A) -> bool)
    requires
        forall|i: int| 0 <= i < s.len() ==> p(s[i]),
    ensures
        s.filter(p) == s,
    decreases s.len(),
{
    reveal(Seq::filter);
    if s.len() > 0 {
        lemma_filter_all(s.drop_last(), p);
        assert(s.filter(p) =~= s);
    } else {
        assert(s.filter(p) =~= s);
    }
}

/// Every element of a filtered sequence passes the filter.
pub proof fn lemma_filter_passes<A>(s: Seq<A>, p: spec_fn(A) -> bool)
    ensures
        forall|i: int| 0 <= i < s.filter(p).len() ==> p(#[trigger] s.filter(p)[i]),
{
    assert forall|i: int| 0 <= i < s.filter(p).len() implies p(#[trigger] s.filter(p)[i]) by {
        let x = s.filter(p)[i];
        assert(s.filter(p).contains(x));
        lemma_filter_contains(s, p, x);
    }
}

/// Filtering twice with the same predicate is filtering once.
pub proof fn lemma_filter_twice<A>(s: Seq<A>, p: spec_fn(A) -> bool)
    ensures
        s.filter(p).filter(p) == s.filter(p),
{
    lemma_filter_passes(s, p);
    lemma_filter_all(s.filter(p), p);
}

} // verus!
