//! Stable sorting.

use vstd::prelude::*;

verus! {

/// A type whose values can be put in order. Different values may share a rank.
pub trait Ranked: Sized {
    /// `self` may stand before `other`.
    spec fn not_after(self, other: Self) -> bool;

    /// Any two values can be compared.
    proof fn rank_total(a: Self, b: Self)
        ensures
            a.not_after(b) || b.not_after(a),
    ;

    /// The comparison is transitive.
    proof fn rank_transitive(a: Self, b: Self, c: Self)
        requires
            a.not_after(b),
            b.not_after(c),
        ensures
            a.not_after(c),
    ;

    /// Whether `self` may stand before `other`.
    fn may_precede(&self, other: &Self) -> (r: bool)
        ensures
            r == self.not_after(*other),
    ;
}

/// `a` and `b` share a rank.
pub open spec fn same_rank<T: Ranked>(a: T, b: T) -> bool {
    a.not_after(b) && b.not_after(a)
}

/// The items of `s` that share the rank of `x`, in the order in which they stand.
pub open spec fn of_rank<T: Ranked>(s: Seq<T>, x: T) -> Seq<T> {
    s.filter(|y: T| same_rank(x, y))
}

/// No item stands before one of a lower rank.
pub open spec fn in_order<T: Ranked>(s: Seq<T>) -> bool {
    forall|i: int, j: int|
        0 <= i < j < s.len() ==> (#[trigger] s[i]).not_after(#[trigger] s[j])
}

/// `output` holds the items of `input` in order, and items that share a rank stand
/// as they stood.
pub open spec fn is_stable_sort<T: Ranked>(input: Seq<T>, output: Seq<T>) -> bool {
    &&& in_order(output)
    &&& forall|x: T| #[trigger] of_rank(output, x) == of_rank(input, x)
}

// ---------------------------------------------------------------------------
// Laws
// ---------------------------------------------------------------------------

proof fn filter_of_none<T>(s: Seq<T>, p: spec_fn(T) -> bool)
    requires
        forall|i: int| 0 <= i < s.len() ==> !p(#[trigger] s[i]),
    ensures
        s.filter(p) == Seq::<T>::empty(),
    decreases s.len(),
{
    reveal(Seq::filter);
    if s.len() > 0 {
        filter_of_none(s.drop_last(), p);
    }
}

proof fn filter_of_one<T>(x: T, p: spec_fn(T) -> bool)
    ensures
        seq![x].filter(p) == if p(x) {
            seq![x]
        } else {
            Seq::<T>::empty()
        },
{
    reveal_with_fuel(Seq::filter, 2);
    assert(seq![x].drop_last() =~= Seq::<T>::empty());
    assert(Seq::<T>::empty().push(x) =~= seq![x]);
}

proof fn filter_from_front<T>(s: Seq<T>, p: spec_fn(T) -> bool)
    requires
        s.len() > 0,
    ensures
        s.filter(p) == (if p(s[0]) {
            seq![s[0]]
        } else {
            Seq::<T>::empty()
        }) + s.drop_first().filter(p),
{
    assert(s =~= seq![s[0]] + s.drop_first());
    Seq::filter_distributes_over_add(seq![s[0]], s.drop_first(), p);
    filter_of_one(s[0], p);
}

proof fn of_rank_from_front<T: Ranked>(s: Seq<T>, x: T)
    requires
        s.len() > 0,
    ensures
        of_rank(s, x) == (if same_rank(x, s[0]) {
            seq![s[0]]
        } else {
            Seq::<T>::empty()
        }) + of_rank(s.drop_first(), x),
{
    filter_from_front(s, |y: T| same_rank(x, y));
}

proof fn first_is_least<T: Ranked>(s: Seq<T>, t: Seq<T>)
    requires
        s.len() > 0,
        in_order(t),
        of_rank(s, s[0]) == of_rank(t, s[0]),
    ensures
        t.len() > 0,
        t[0].not_after(s[0]),
{
    let p = |y: T| same_rank(s[0], y);
    T::rank_total(s[0], s[0]);
    of_rank_from_front(s, s[0]);
    assert(of_rank(s, s[0]).len() > 0);
    t.lemma_filter_len(p);
    let y = of_rank(t, s[0])[0];
    t.lemma_filter_pred(p, 0);
    filter_is_within(t, p, 0);
    let k = choose|k: int| 0 <= k < t.len() && t[k] == y;
    T::rank_total(t[0], t[0]);
    assert(t[0].not_after(t[k]));
    T::rank_transitive(t[0], t[k], s[0]);
}

proof fn filter_is_within<T>(s: Seq<T>, p: spec_fn(T) -> bool, i: int)
    requires
        0 <= i < s.filter(p).len(),
    ensures
        exists|k: int| 0 <= k < s.len() && s[k] == s.filter(p)[i],
    decreases s.len(),
{
    reveal(Seq::filter);
    if s.len() > 0 {
        let t = s.drop_last();
        if i < t.filter(p).len() {
            filter_is_within(t, p, i);
            let k = choose|k: int| 0 <= k < t.len() && t[k] == t.filter(p)[i];
            assert(s[k] == s.filter(p)[i]);
        } else {
            assert(s[s.len() - 1] == s.filter(p)[i]);
        }
    }
}

/// A sequence has only one stable sort.
pub proof fn stable_sort_is_unique<T: Ranked>(input: Seq<T>, a: Seq<T>, b: Seq<T>)
    requires
        is_stable_sort(input, a),
        is_stable_sort(input, b),
    ensures
        a == b,
{
    assert forall|x: T| #[trigger] of_rank(a, x) == of_rank(b, x) by {
        assert(of_rank(a, x) == of_rank(input, x));
        assert(of_rank(b, x) == of_rank(input, x));
    }
    ordered_same_ranks_equal(a, b);
}

proof fn ordered_same_ranks_equal<T: Ranked>(a: Seq<T>, b: Seq<T>)
    requires
        in_order(a),
        in_order(b),
        forall|x: T| #[trigger] of_rank(a, x) == of_rank(b, x),
    ensures
        a == b,
    decreases a.len(),
{
    if a.len() == 0 {
        if b.len() > 0 {
            assert(of_rank(a, b[0]) == of_rank(b, b[0]));
            first_is_least(b, a);
        }
        assert(a =~= b);
    } else {
        assert(of_rank(a, a[0]) == of_rank(b, a[0]));
        first_is_least(a, b);
        assert(of_rank(a, b[0]) == of_rank(b, b[0]));
        first_is_least(b, a);
        of_rank_from_front(a, a[0]);
        of_rank_from_front(b, a[0]);
        T::rank_total(a[0], a[0]);
        assert(of_rank(a, a[0])[0] == a[0]);
        assert(of_rank(b, a[0])[0] == b[0]);
        let s = a.drop_first();
        let t = b.drop_first();
        assert forall|x: T| #[trigger] of_rank(s, x) == of_rank(t, x) by {
            assert(of_rank(a, x) == of_rank(b, x));
            of_rank_from_front(a, x);
            of_rank_from_front(b, x);
            let n: int = if same_rank(x, a[0]) { 1 } else { 0 };
            assert(of_rank(s, x) =~= of_rank(a, x).skip(n));
            assert(of_rank(t, x) =~= of_rank(b, x).skip(n));
        }
        assert forall|i: int, j: int| 0 <= i < j < s.len() implies (#[trigger] s[i]).not_after(
            #[trigger] s[j],
        ) by {
            assert(a[i + 1].not_after(a[j + 1]));
        }
        assert forall|i: int, j: int| 0 <= i < j < t.len() implies (#[trigger] t[i]).not_after(
            #[trigger] t[j],
        ) by {
            assert(b[i + 1].not_after(b[j + 1]));
        }
        ordered_same_ranks_equal(s, t);
        assert(a =~= seq![a[0]] + s);
        assert(b =~= seq![b[0]] + t);
    }
}

/// A stable sort has as many items as its input.
pub proof fn stable_sort_keeps_len<T: Ranked>(input: Seq<T>, output: Seq<T>)
    requires
        is_stable_sort(input, output),
    ensures
        output.len() == input.len(),
{
    assert forall|x: T| #[trigger] of_rank(output, x) == of_rank(input, x) by {}
    same_ranks_same_len(input, output);
}

proof fn same_ranks_same_len<T: Ranked>(a: Seq<T>, b: Seq<T>)
    requires
        forall|x: T| #[trigger] of_rank(b, x) == of_rank(a, x),
    ensures
        a.len() == b.len(),
    decreases a.len(),
{
    if a.len() == 0 {
        if b.len() > 0 {
            T::rank_total(b[0], b[0]);
            of_rank_from_front(b, b[0]);
            a.lemma_filter_len(|y: T| same_rank(b[0], y));
            assert(of_rank(b, b[0]) == of_rank(a, b[0]));
        }
    } else {
        let x = a[0];
        let p = |y: T| same_rank(x, y);
        T::rank_total(x, x);
        of_rank_from_front(a, x);
        assert(of_rank(b, x) == of_rank(a, x));
        let k = first_of_rank(b, x);
        let rest = b.take(k) + b.skip(k + 1);
        let s = a.drop_first();
        assert forall|z: T| #[trigger] of_rank(rest, z) == of_rank(s, z) by {
            let q = |y: T| same_rank(z, y);
            assert(of_rank(b, z) == of_rank(a, z));
            of_rank_from_front(a, z);
            assert(b =~= b.take(k) + (seq![b[k]] + b.skip(k + 1)));
            Seq::filter_distributes_over_add(b.take(k), seq![b[k]] + b.skip(k + 1), q);
            Seq::filter_distributes_over_add(seq![b[k]], b.skip(k + 1), q);
            Seq::filter_distributes_over_add(b.take(k), b.skip(k + 1), q);
            filter_of_one(b[k], q);
            if same_rank(z, x) {
                T::rank_transitive(z, x, b[k]);
                T::rank_transitive(b[k], x, z);
                assert forall|i: int| 0 <= i < b.take(k).len() implies !q(
                    #[trigger] b.take(k)[i],
                ) by {
                    if q(b[i]) {
                        T::rank_transitive(x, z, b[i]);
                        T::rank_transitive(b[i], z, x);
                    }
                }
                filter_of_none(b.take(k), q);
                assert(of_rank(rest, z) =~= of_rank(b, z).skip(1));
                assert(of_rank(s, z) =~= of_rank(a, z).skip(1));
            } else {
                if same_rank(z, b[k]) {
                    T::rank_transitive(z, b[k], x);
                    T::rank_transitive(x, b[k], z);
                }
                assert(of_rank(rest, z) =~= of_rank(b, z));
                assert(of_rank(s, z) =~= of_rank(a, z));
            }
        }
        same_ranks_same_len(s, rest);
    }
}

proof fn first_of_rank<T: Ranked>(b: Seq<T>, x: T) -> (k: int)
    requires
        of_rank(b, x).len() > 0,
    ensures
        0 <= k < b.len(),
        same_rank(x, b[k]),
        forall|i: int| 0 <= i < k ==> !same_rank(x, #[trigger] b[i]),
    decreases b.len(),
{
    let p = |y: T| same_rank(x, y);
    if b.len() == 0 {
        b.lemma_filter_len(p);
        0
    } else if same_rank(x, b[0]) {
        0
    } else {
        of_rank_from_front(b, x);
        assert(of_rank(b, x) =~= of_rank(b.drop_first(), x));
        let k = first_of_rank(b.drop_first(), x);
        assert forall|i: int| 0 <= i < k + 1 implies !same_rank(x, #[trigger] b[i]) by {
            if i > 0 {
                assert(b[i] == b.drop_first()[i - 1]);
            }
        }
        k + 1
    }
}

// ---------------------------------------------------------------------------
// Sorting
// ---------------------------------------------------------------------------

/// Puts the items in order and keeps the order of those that share a rank.
pub fn stable_sort<T: Ranked>(items: Vec<T>) -> (r: Vec<T>)
    ensures
        is_stable_sort(items@, r@),
        r@.len() == items@.len(),
{
    let ghost input = items@;
    let mut left = items;
    let mut out: Vec<T> = Vec::new();
    proof {
        assert(input.skip(input.len() as int) =~= Seq::<T>::empty());
        assert(input.take(input.len() as int) =~= input);
        assert(out@ =~= Seq::<T>::empty());
    }
    while left.len() > 0
        invariant
            left@.len() <= input.len(),
            left@ == input.take(left@.len() as int),
            is_stable_sort(input.skip(left@.len() as int), out@),
        decreases left@.len(),
    {
        let ghost n = left@.len() as int;
        let ghost tail = input.skip(n);
        let ghost before = out@;
        let popped = left.pop();
        let x = popped.unwrap();
        assert(x == input[n - 1]);
        let mut p: usize = 0;
        while p < out.len() && !x.may_precede(&out[p])
            invariant
                p <= out.len(),
                out@ == before,
                forall|i: int| 0 <= i < p ==> !x.not_after(#[trigger] before[i]),
            decreases out.len() - p,
        {
            p = p + 1;
        }
        out.insert(p, x);
        proof {
            let tail2 = input.skip(n - 1);
            assert(tail2[0] == x);
            assert(tail2.drop_first() =~= tail);
            assert(input.take(n).drop_last() =~= input.take(n - 1));
            assert(out@ =~= before.take(p as int) + (seq![x] + before.skip(p as int)));
            insert_keeps_order(before, x, p as int);
            assert forall|z: T| #[trigger] of_rank(out@, z) == of_rank(tail2, z) by {
                assert(of_rank(before, z) == of_rank(tail, z));
                of_rank_from_front(tail2, z);
                insert_into_rank(before, x, p as int, z);
            }
        }
    }
    proof {
        assert(input.skip(0) =~= input);
        stable_sort_keeps_len(input, out@);
    }
    out
}

proof fn insert_keeps_order<T: Ranked>(s: Seq<T>, x: T, p: int)
    requires
        in_order(s),
        0 <= p <= s.len(),
        forall|i: int| 0 <= i < p ==> !x.not_after(#[trigger] s[i]),
        p < s.len() ==> x.not_after(s[p]),
    ensures
        in_order(s.take(p) + (seq![x] + s.skip(p))),
{
    let t = s.take(p) + (seq![x] + s.skip(p));
    assert forall|i: int, j: int| 0 <= i < j < t.len() implies (#[trigger] t[i]).not_after(
        #[trigger] t[j],
    ) by {
        if j < p {
            assert(s[i].not_after(s[j]));
        } else if i < p {
            T::rank_total(x, s[i]);
            if j > p {
                if j - 1 > p {
                    assert(s[p].not_after(s[j - 1]));
                    T::rank_transitive(x, s[p], s[j - 1]);
                }
                T::rank_transitive(s[i], x, s[j - 1]);
            }
        } else if i == p {
            if j - 1 > p {
                assert(s[p].not_after(s[j - 1]));
                T::rank_transitive(x, s[p], s[j - 1]);
            }
        } else {
            assert(s[i - 1].not_after(s[j - 1]));
        }
    }
}

proof fn insert_into_rank<T: Ranked>(s: Seq<T>, x: T, p: int, z: T)
    requires
        0 <= p <= s.len(),
        forall|i: int| 0 <= i < p ==> !x.not_after(#[trigger] s[i]),
    ensures
        of_rank(s.take(p) + (seq![x] + s.skip(p)), z) == (if same_rank(z, x) {
            seq![x]
        } else {
            Seq::<T>::empty()
        }) + of_rank(s, z),
{
    let q = |y: T| same_rank(z, y);
    assert(s =~= s.take(p) + s.skip(p));
    Seq::filter_distributes_over_add(s.take(p), s.skip(p), q);
    Seq::filter_distributes_over_add(s.take(p), seq![x] + s.skip(p), q);
    Seq::filter_distributes_over_add(seq![x], s.skip(p), q);
    filter_of_one(x, q);
    if same_rank(z, x) {
        assert forall|i: int| 0 <= i < s.take(p).len() implies !q(#[trigger] s.take(p)[i]) by {
            if q(s[i]) {
                T::rank_transitive(x, z, s[i]);
            }
        }
        filter_of_none(s.take(p), q);
    }
    assert(of_rank(s.take(p) + (seq![x] + s.skip(p)), z) =~= (if same_rank(z, x) {
        seq![x]
    } else {
        Seq::<T>::empty()
    }) + of_rank(s, z));
}

proof fn insertion_place<T: Ranked>(s: Seq<T>, x: T, from: int) -> (p: int)
    requires
        0 <= from <= s.len(),
        forall|i: int| 0 <= i < from ==> !x.not_after(#[trigger] s[i]),
    ensures
        0 <= p <= s.len(),
        forall|i: int| 0 <= i < p ==> !x.not_after(#[trigger] s[i]),
        p < s.len() ==> x.not_after(s[p]),
    decreases s.len() - from,
{
    if from == s.len() || x.not_after(s[from]) {
        from
    } else {
        insertion_place(s, x, from + 1)
    }
}

/// Every sequence can be put in order.
pub proof fn stable_sort_exists<T: Ranked>(s: Seq<T>) -> (t: Seq<T>)
    ensures
        is_stable_sort(s, t),
    decreases s.len(),
{
    if s.len() == 0 {
        s
    } else {
        let x = s[0];
        let rest = stable_sort_exists(s.drop_first());
        let p = insertion_place(rest, x, 0);
        let t = rest.take(p) + (seq![x] + rest.skip(p));
        insert_keeps_order(rest, x, p);
        assert forall|z: T| #[trigger] of_rank(t, z) == of_rank(s, z) by {
            assert(of_rank(rest, z) == of_rank(s.drop_first(), z));
            of_rank_from_front(s, z);
            insert_into_rank(rest, x, p, z);
        }
        t
    }
}

proof fn count_within_rank<T: Ranked>(s: Seq<T>, x: T)
    ensures
        s.to_multiset().count(x) == of_rank(s, x).to_multiset().count(x),
    decreases s.len(),
{
    broadcast use vstd::seq_lib::group_to_multiset_ensures;

    reveal(Seq::filter);
    T::rank_total(x, x);
    if s.len() > 0 {
        let t = s.drop_last();
        count_within_rank(t, x);
        assert(s =~= t.push(s.last()));
        assert(s.to_multiset() =~= t.to_multiset().insert(s.last()));
        if same_rank(x, s.last()) {
            assert(of_rank(s, x) =~= of_rank(t, x).push(s.last()));
        } else {
            assert(of_rank(s, x) =~= of_rank(t, x));
        }
    } else {
        assert(of_rank(s, x) =~= s);
    }
}

/// Sorting neither loses an item nor adds one.
pub proof fn stable_sort_keeps_items<T: Ranked>(input: Seq<T>, output: Seq<T>)
    requires
        is_stable_sort(input, output),
    ensures
        output.to_multiset() == input.to_multiset(),
{
    assert forall|x: T| output.to_multiset().count(x) == input.to_multiset().count(x) by {
        count_within_rank(input, x);
        count_within_rank(output, x);
        assert(of_rank(output, x) == of_rank(input, x));
    }
    assert(output.to_multiset() =~= input.to_multiset());
}

} // verus!
