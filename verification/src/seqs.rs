//! Facts about `Seq::filter` used when scanning lists front to back, and
//! the index predicate that chains of calls are stated over.

use vstd::prelude::*;

verus! {

/// `i` is an index of `s`.
pub open spec fn index_of<A>(s: Seq<A>, i: int) -> bool {
    0 <= i < s.len()
}

/// Extending a prefix by one element extends its filter by that element when it passes.
pub proof fn lemma_filter_take_step<A>(s: Seq<A>, p: spec_fn(A) -> bool, i: int)
    requires
        0 <= i < s.len(),
    ensures
        s.take(i + 1).filter(p) == if p(s[i]) {
            s.take(i).filter(p).push(s[i])
        } else {
            s.take(i).filter(p)
        },
{
    reveal(Seq::filter);
    assert(s.take(i + 1).drop_last() =~= s.take(i));
    assert(s.take(i + 1).last() == s[i]);
}

/// The filter of a whole sequence is the filter of its full prefix.
pub proof fn lemma_take_full<A>(s: Seq<A>)
    ensures
        s.take(s.len() as int) == s,
{
    assert(s.take(s.len() as int) =~= s);
}

/// If no element before `i` passes and `s[i]` does, `s[i]` is the first element of the filter.
pub proof fn lemma_first_of_filter<A>(s: Seq<A>, p: spec_fn(A) -> bool, i: int)
    requires
        0 <= i < s.len(),
        s.take(i).filter(p).len() == 0,
        p(s[i]),
    ensures
        s.filter(p).len() > 0,
        s.filter(p)[0] == s[i],
{
    lemma_filter_take_step(s, p, i);
    assert(s =~= s.take(i + 1) + s.skip(i + 1));
    Seq::filter_distributes_over_add(s.take(i + 1), s.skip(i + 1), p);
    assert(s.take(i + 1).filter(p) =~= seq![s[i]]);
}

/// A filter is empty exactly when no element passes.
pub proof fn lemma_filter_empty_iff<A>(s: Seq<A>, p: spec_fn(A) -> bool)
    ensures
        s.filter(p).len() == 0 <==> forall|j: int| 0 <= j < s.len() ==> !p(#[trigger] s[j]),
    decreases s.len(),
{
    reveal(Seq::filter);
    if s.len() > 0 {
        lemma_filter_empty_iff(s.drop_last(), p);
        assert forall|j: int| 0 <= j < s.len() - 1 implies s.drop_last()[j] == #[trigger] s[j] by {}
        if s.filter(p).len() == 0 {
            assert(!p(s.last()));
        }
    }
}


/// Filtering twice keeps what passes both predicates.
pub proof fn lemma_filter_filter<A>(s: Seq<A>, p: spec_fn(A) -> bool, q: spec_fn(A) -> bool)
    ensures
        s.filter(p).filter(q) == s.filter(|x: A| p(x) && q(x)),
    decreases s.len(),
{
    reveal(Seq::filter);
    if s.len() > 0 {
        lemma_filter_filter(s.drop_last(), p, q);
        let both = |x: A| p(x) && q(x);
        if p(s.last()) {
            assert(s.filter(p) == s.drop_last().filter(p).push(s.last()));
            assert(s.filter(p).drop_last() =~= s.drop_last().filter(p));
            assert(s.filter(p).last() == s.last());
        } else {
            assert(s.filter(p) == s.drop_last().filter(p));
        }
        assert(s.filter(both) == if both(s.last()) {
            s.drop_last().filter(both).push(s.last())
        } else {
            s.drop_last().filter(both)
        });
    } else {
        assert(s.filter(p) =~= Seq::<A>::empty());
    }
}

/// An element of a filter passes the predicate and comes from the sequence.
pub proof fn lemma_filter_elem<A>(s: Seq<A>, p: spec_fn(A) -> bool, i: int)
    requires
        0 <= i < s.filter(p).len(),
    ensures
        p(s.filter(p)[i]),
        exists|j: int| 0 <= j < s.len() && #[trigger] s[j] == s.filter(p)[i],
{
    s.lemma_filter_pred(p, i);
    assert(s.filter(p).contains(s.filter(p)[i]));
    s.lemma_filter_contains_rev(p, s.filter(p)[i]);
}

} // verus!
