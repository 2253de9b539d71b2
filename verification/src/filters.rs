//! Filters of sequences.

use vstd::prelude::*;

use crate::order::{in_order, Ranked};

verus! {

/// A filter over one element more keeps that element or does not.
pub proof fn filter_one_more<T>(s: Seq<T>, k: int, p: spec_fn(T) -> bool)
    requires
        0 <= k < s.len(),
    ensures
        s.take(k + 1).filter(p) == if p(s[k]) {
            s.take(k).filter(p).push(s[k])
        } else {
            s.take(k).filter(p)
        },
{
    reveal(Seq::filter);
    assert(s.take(k + 1).drop_last() =~= s.take(k));
    assert(s.take(k + 1).last() == s[k]);
}

/// To filter after a map is to map after the filter that looks through the map.
pub proof fn filter_of_map<A, B>(
    s: Seq<A>,
    f: spec_fn(A) -> B,
    p: spec_fn(A) -> bool,
    q: spec_fn(B) -> bool,
)
    requires
        forall|x: A| #[trigger] p(x) == q(f(x)),
    ensures
        s.map_values(f).filter(q) == s.filter(p).map_values(f),
    decreases s.len(),
{
    reveal(Seq::filter);
    if s.len() == 0 {
        assert(s.map_values(f) =~= Seq::<B>::empty());
        assert(s.filter(p).map_values(f) =~= Seq::<B>::empty());
    } else {
        let t = s.drop_last();
        filter_of_map(t, f, p, q);
        assert(s.map_values(f).drop_last() =~= t.map_values(f));
        assert(s.map_values(f).last() == f(s.last()));
        assert(p(s.last()) == q(f(s.last())));
        if p(s.last()) {
            assert(s.filter(p).map_values(f) =~= t.filter(p).map_values(f).push(f(s.last())));
        }
    }
}


/// What a filter leaves of an ordered sequence is in order.
pub proof fn filter_keeps_order<T: Ranked>(s: Seq<T>, p: spec_fn(T) -> bool)
    requires
        in_order(s),
    ensures
        in_order(s.filter(p)),
    decreases s.len(),
{
    reveal(Seq::filter);
    if s.len() > 0 {
        let t = s.drop_last();
        assert forall|i: int, j: int| 0 <= i < j < t.len() implies (#[trigger] t[i]).not_after(
            #[trigger] t[j],
        ) by {
            assert(s[i].not_after(s[j]));
        }
        filter_keeps_order(t, p);
        let u = t.filter(p);
        if p(s.last()) {
            let v = s.filter(p);
            assert forall|i: int, j: int| 0 <= i < j < v.len() implies (
            #[trigger] v[i]).not_after(#[trigger] v[j]) by {
                if j == u.len() {
                    t.lemma_filter_contains_rev(p, u[i]);
                    let k = choose|k: int| 0 <= k < t.len() && t[k] == u[i];
                    assert(s[k].not_after(s[s.len() - 1]));
                } else {
                    assert(u[i].not_after(u[j]));
                }
            }
        }
    }
}

} // verus!
