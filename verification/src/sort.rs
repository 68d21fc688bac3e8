//! Stable sorting by insertion: each element goes before the first element
//! already placed that must come after it, so equal elements keep their
//! input order, as with `slice::sort_by`.

use vstd::prelude::*;

verus! {

/// An order to sort by.
pub trait SortOrder: Sized {
    /// Whether `a` must come after `b`.
    spec fn comes_after(a: Self, b: Self) -> bool;

    /// Whether `a` must come after `b`.
    fn is_after(a: &Self, b: &Self) -> (r: bool)
        ensures
            r == Self::comes_after(*a, *b),
    ;
}

/// `s` with `x` placed before the first element that must come after it.
pub open spec fn insert_sorted<T: SortOrder>(s: Seq<T>, x: T) -> Seq<T>
    decreases s.len(),
{
    if s.len() == 0 {
        seq![x]
    } else if T::comes_after(s[0], x) {
        seq![x] + s
    } else {
        seq![s[0]] + insert_sorted(s.drop_first(), x)
    }
}

/// The stable sort of `s`: its elements inserted one after the other, in
/// input order.
pub open spec fn stable_sorted<T: SortOrder>(s: Seq<T>) -> Seq<T>
    decreases s.len(),
{
    if s.len() == 0 {
        Seq::empty()
    } else {
        insert_sorted(stable_sorted(s.drop_last()), s.last())
    }
}

/// Where `insert_sorted` places `x` in `s`.
pub open spec fn insert_position<T: SortOrder>(s: Seq<T>, x: T) -> nat
    decreases s.len(),
{
    if s.len() == 0 || T::comes_after(s[0], x) {
        0
    } else {
        1 + insert_position(s.drop_first(), x)
    }
}

proof fn lemma_insert_position<T: SortOrder>(s: Seq<T>, x: T)
    ensures
        insert_position(s, x) <= s.len(),
        insert_sorted(s, x) == s.insert(insert_position(s, x) as int, x),
        forall|k: int| 0 <= k < insert_position(s, x) ==> !T::comes_after(#[trigger] s[k], x),
        insert_position(s, x) < s.len() ==> T::comes_after(s[insert_position(s, x) as int], x),
    decreases s.len(),
{
    if s.len() == 0 {
        assert(s.insert(0, x) =~= seq![x]);
    } else if T::comes_after(s[0], x) {
        assert(s.insert(0, x) =~= seq![x] + s);
    } else {
        lemma_insert_position(s.drop_first(), x);
        let p = insert_position(s.drop_first(), x);
        assert(seq![s[0]] + s.drop_first().insert(p as int, x) =~= s.insert(p as int + 1, x));
        assert forall|k: int| 0 <= k < insert_position(s, x) implies !T::comes_after(
            #[trigger] s[k],
            x,
        ) by {
            if k > 0 {
                assert(s[k] == s.drop_first()[k - 1]);
            }
        }
        if p < s.drop_first().len() {
            assert(s[p as int + 1] == s.drop_first()[p as int]);
        }
    }
}

/// Inserts `x` into `v` before the first element that must come after it.
pub fn insert_in_order<T: SortOrder>(v: &mut Vec<T>, x: T)
    ensures
        final(v)@ == insert_sorted(old(v)@, x),
{
    proof {
        lemma_insert_position(v@, x);
    }
    let mut p: usize = 0;
    while p < v.len() && !T::is_after(&v[p], &x)
        invariant
            0 <= p <= v@.len(),
            v@ == old(v)@,
            p <= insert_position(v@, x),
            forall|k: int| 0 <= k < insert_position(v@, x) ==> !T::comes_after(#[trigger] v@[k], x),
            insert_position(v@, x) <= v@.len(),
            insert_position(v@, x) < v@.len() ==> T::comes_after(
                v@[insert_position(v@, x) as int],
                x,
            ),
        decreases v@.len() - p,
    {
        p = p + 1;
    }
    assert(p == insert_position(v@, x));
    v.insert(p, x);
}

/// The elements of `v` in stable sorted order.
pub fn stable_sort<T: SortOrder>(v: Vec<T>) -> (r: Vec<T>)
    ensures
        r@ == stable_sorted(v@),
{
    let ghost all = v@;
    let mut out: Vec<T> = Vec::new();
    for x in it: v.into_iter()
        invariant
            it.seq() == all,
            out@ == stable_sorted(all.take(it.index() as int)),
    {
        let ghost i = it.index() as int;
        assert(all.take(i + 1).drop_last() =~= all.take(i));
        insert_in_order(&mut out, x);
    }
    assert(all.take(all.len() as int) =~= all);
    out
}

/// Whether no element of `s` must come after its successor.
pub open spec fn adjacent_sorted<T: SortOrder>(s: Seq<T>) -> bool {
    forall|i: int| 0 <= i < s.len() - 1 ==> !T::comes_after(#[trigger] s[i], s[i + 1])
}

/// Whether the order is asymmetric: never each of two elements after the
/// other.
pub open spec fn asymmetric<T: SortOrder>() -> bool {
    forall|a: T, b: T| #[trigger] T::comes_after(a, b) ==> !T::comes_after(b, a)
}

proof fn lemma_insert_sorted_keeps_order<T: SortOrder>(s: Seq<T>, x: T)
    requires
        asymmetric::<T>(),
        adjacent_sorted(s),
    ensures
        adjacent_sorted(insert_sorted(s, x)),
{
    lemma_insert_position(s, x);
    let p = insert_position(s, x) as int;
    let r = s.insert(p, x);
    assert forall|i: int| 0 <= i < r.len() - 1 implies !T::comes_after(#[trigger] r[i], r[i + 1]) by {
        if i < p - 1 {
            assert(r[i] == s[i] && r[i + 1] == s[i + 1]);
        } else if i == p - 1 {
            assert(r[i] == s[i] && r[i + 1] == x);
        } else if i == p {
            assert(r[i] == x && r[i + 1] == s[p]);
            assert(T::comes_after(s[p], x));
        } else {
            assert(r[i] == s[i - 1] && r[i + 1] == s[i]);
        }
    }
}

/// Under an asymmetric order, a stable sort leaves no element before one
/// that must precede it.
pub proof fn stable_sorted_is_sorted<T: SortOrder>(s: Seq<T>)
    requires
        asymmetric::<T>(),
    ensures
        adjacent_sorted(stable_sorted(s)),
    decreases s.len(),
{
    if s.len() > 0 {
        stable_sorted_is_sorted(s.drop_last());
        lemma_insert_sorted_keeps_order(stable_sorted(s.drop_last()), s.last());
    }
}

/// A stable sort keeps every element, as many times as it occurs.
pub proof fn stable_sorted_is_permutation<T: SortOrder>(s: Seq<T>)
    ensures
        stable_sorted(s).to_multiset() == s.to_multiset(),
    decreases s.len(),
{
    broadcast use vstd::seq_lib::to_multiset_insert, vstd::seq_lib::to_multiset_build;

    if s.len() == 0 {
        assert(stable_sorted(s) =~= s);
    } else {
        stable_sorted_is_permutation(s.drop_last());
        lemma_insert_position(stable_sorted(s.drop_last()), s.last());
        assert(s.drop_last().push(s.last()) =~= s);
    }
}

/// Whether "not after" chains: an element not after a second, which is not
/// after a third, is not after the third.
pub open spec fn not_after_transitive<T: SortOrder>() -> bool {
    forall|a: T, b: T, c: T|
        #![trigger T::comes_after(a, b), T::comes_after(b, c)]
        !T::comes_after(a, b) && !T::comes_after(b, c) ==> !T::comes_after(a, c)
}

/// Whether no element of `s` must come after any later one.
pub open spec fn pairwise_sorted<T: SortOrder>(s: Seq<T>) -> bool {
    forall|i: int, j: int| 0 <= i < j < s.len() ==> !T::comes_after(#[trigger] s[i], #[trigger] s[j])
}

proof fn lemma_sorted_from<T: SortOrder>(s: Seq<T>, i: int, j: int)
    requires
        not_after_transitive::<T>(),
        adjacent_sorted(s),
        0 <= i < j < s.len(),
    ensures
        !T::comes_after(s[i], s[j]),
    decreases j - i,
{
    if j > i + 1 {
        lemma_sorted_from(s, i, j - 1);
        assert(!T::comes_after(s[j - 1], s[j]));
        assert(!T::comes_after(s[i], s[j - 1]) && !T::comes_after(s[j - 1], s[j]));
    }
}

/// Under an asymmetric order whose "not after" chains, a stable sort leaves
/// no element before any later one that must precede it.
pub proof fn stable_sorted_is_pairwise_sorted<T: SortOrder>(s: Seq<T>)
    requires
        asymmetric::<T>(),
        not_after_transitive::<T>(),
    ensures
        pairwise_sorted(stable_sorted(s)),
{
    stable_sorted_is_sorted(s);
    let r = stable_sorted(s);
    assert forall|i: int, j: int| 0 <= i < j < r.len() implies !T::comes_after(
        #[trigger] r[i],
        #[trigger] r[j],
    ) by {
        lemma_sorted_from(r, i, j);
    }
}

} // verus!
