//! Sorting by a total preorder: the ranking of summaries and of repository
//! records before they are written out.

use vstd::prelude::*;

verus! {

/// A total preorder on the values of a type, with an executable test.
pub trait TotalPreorder: Sized {
    /// `a` may be placed before `b`.
    spec fn precedes(a: Self, b: Self) -> bool;

    /// Of any two values, one may be placed before the other.
    proof fn lemma_total(a: Self, b: Self)
        ensures
            Self::precedes(a, b) || Self::precedes(b, a),
    ;

    /// Placing before is transitive.
    proof fn lemma_transitive(a: Self, b: Self, c: Self)
        requires
            Self::precedes(a, b),
            Self::precedes(b, c),
        ensures
            Self::precedes(a, c),
    ;

    /// Whether `self` may be placed before `other`.
    fn precedes_exec(&self, other: &Self) -> (r: bool)
        ensures
            r == Self::precedes(*self, *other),
    ;
}

/// Every value of `s` may be placed before every later one.
pub open spec fn is_sorted_by<T: TotalPreorder>(s: Seq<T>) -> bool {
    forall|i: int, j: int| 0 <= i < j < s.len() ==> T::precedes(#[trigger] s[i], #[trigger] s[j])
}

/// The first position of sorted `s` whose value may not be placed before
/// `x`: `x` can go there and keep `s` sorted.
fn insertion_point<T: TotalPreorder>(s: &Vec<T>, x: &T) -> (k: usize)
    ensures
        k <= s@.len(),
        forall|t: int| 0 <= t < k ==> T::precedes(#[trigger] s@[t], *x),
        k < s@.len() ==> !T::precedes(s@[k as int], *x),
{
    let mut k: usize = 0;
    while k < s.len()
        invariant
            k <= s@.len(),
            forall|t: int| 0 <= t < k ==> T::precedes(#[trigger] s@[t], *x),
        decreases s@.len() - k,
    {
        if !s[k].precedes_exec(x) {
            return k;
        }
        k = k + 1;
    }
    k
}

/// Sorts `v` so that each value may be placed before every later one; the
/// values stay the same.
pub fn sort_by_rank<T: TotalPreorder>(v: &mut Vec<T>)
    ensures
        final(v)@.to_multiset() == old(v)@.to_multiset(),
        is_sorted_by(final(v)@),
{
    broadcast use vstd::seq_lib::group_to_multiset_ensures;

    let ghost all = v@;
    let mut out: Vec<T> = Vec::new();
    while v.len() > 0
        invariant
            out@.to_multiset().add(v@.to_multiset()) == all.to_multiset(),
            is_sorted_by(out@),
        decreases v@.len(),
    {
        let ghost rest = v@;
        let x = v.remove(0);
        assert(rest.to_multiset() =~= v@.to_multiset().insert(x)) by {
            broadcast use vstd::multiset::group_multiset_axioms;

            assert(v@ == rest.remove(0));
            assert(rest[0] == x);
            assert(rest.contains(x));
            vstd::seq_lib::to_multiset_contains(rest, x);
            vstd::seq_lib::to_multiset_remove(rest, 0);
            assert(rest.to_multiset().count(x) > 0);
        }
        let k = insertion_point(&out, &x);
        let ghost before = out@;
        out.insert(k, x);
        assert(out@ == before.insert(k as int, x));
        assert forall|i: int, j: int| 0 <= i < j < out@.len() implies T::precedes(
            #[trigger] out@[i],
            #[trigger] out@[j],
        ) by {
            if j < k {
                assert(out@[i] == before[i] && out@[j] == before[j]);
            } else if j == k {
                assert(out@[i] == before[i]);
            } else if i > k {
                assert(out@[i] == before[i - 1] && out@[j] == before[j - 1]);
            } else if i == k {
                T::lemma_total(before[k as int], x);
                if k + 1 < j {
                    T::lemma_transitive(x, before[k as int], before[j - 1]);
                }
            } else {
                assert(out@[i] == before[i] && out@[j] == before[j - 1]);
            }
        }
        proof {
            vstd::seq_lib::to_multiset_insert(before, k as int, x);
        }
        assert(out@.to_multiset() == before.to_multiset().insert(x));
        assert(out@.to_multiset().add(v@.to_multiset()) =~= before.to_multiset().add(
            rest.to_multiset(),
        )) by {
            broadcast use vstd::multiset::group_multiset_axioms;

        }
    }
    assert(v@.to_multiset() =~= vstd::multiset::Multiset::empty());
    assert(out@.to_multiset() =~= all.to_multiset());
    *v = out;
}

} // verus!
