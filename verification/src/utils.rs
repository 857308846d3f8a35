//! Ordered comparison of sequences.

use core::cmp::Ordering;
use vstd::prelude::*;
use vstd::std_specs::cmp::OrdSpec;

verus! {

/// Generalized prefix comparison of two sequences: the first index where the
/// elements differ decides; if one sequence runs out first, the shorter one
/// is `Less`. `Equal` holds only for sequences of the same length whose
/// elements compare `Equal` throughout.
pub open spec fn seq_cmp<T: Ord>(a: Seq<T>, b: Seq<T>) -> Ordering
    decreases a.len(),
{
    if a.len() == 0 && b.len() == 0 {
        Ordering::Equal
    } else if a.len() == 0 {
        Ordering::Less
    } else if b.len() == 0 {
        Ordering::Greater
    } else if a[0].cmp_spec(&b[0]) == Ordering::Equal {
        seq_cmp(a.drop_first(), b.drop_first())
    } else {
        a[0].cmp_spec(&b[0])
    }
}

/// Compares two slices in lockstep: the first pairwise difference decides,
/// and otherwise the lengths are compared, so a strict prefix is `Less`.
pub fn compare<T: Ord>(a: &[T], b: &[T]) -> (r: Ordering)
    requires
        T::obeys_cmp_spec(),
    ensures
        r == seq_cmp(a@, b@),
{
    let mut i: usize = 0;
    proof {
        assert(a@.skip(0) =~= a@);
        assert(b@.skip(0) =~= b@);
    }
    while i < a.len() && i < b.len()
        invariant
            T::obeys_cmp_spec(),
            i <= a.len(),
            i <= b.len(),
            seq_cmp(a@, b@) == seq_cmp(a@.skip(i as int), b@.skip(i as int)),
        decreases a.len() - i,
    {
        let ord = a[i].cmp(&b[i]);
        proof {
            assert(a@.skip(i as int)[0] == a@[i as int]);
            assert(b@.skip(i as int)[0] == b@[i as int]);
        }
        match ord {
            Ordering::Equal => {
                proof {
                    assert(a@.skip(i as int).drop_first() =~= a@.skip(i + 1));
                    assert(b@.skip(i as int).drop_first() =~= b@.skip(i + 1));
                }
                i = i + 1;
            },
            _ => {
                return ord;
            },
        }
    }
    proof {
        assert(a@.skip(i as int).len() == a@.len() - i);
        assert(b@.skip(i as int).len() == b@.len() - i);
    }
    if a.len() < b.len() {
        Ordering::Less
    } else if a.len() > b.len() {
        Ordering::Greater
    } else {
        Ordering::Equal
    }
}

/// Sequences whose elements compare `Equal` at every index and that have the
/// same length compare `Equal` overall.
pub proof fn lemma_seq_cmp_equal<T: Ord>(a: Seq<T>, b: Seq<T>)
    requires
        a.len() == b.len(),
        forall|i: int| 0 <= i < a.len() ==> #[trigger] a[i].cmp_spec(&b[i]) == Ordering::Equal,
    ensures
        seq_cmp(a, b) == Ordering::Equal,
    decreases a.len(),
{
    if a.len() > 0 {
        assert(forall|i: int|
            0 <= i < a.drop_first().len() ==> #[trigger] a.drop_first()[i].cmp_spec(
                &b.drop_first()[i],
            ) == Ordering::Equal) by {
            assert(forall|i: int| 0 <= i < a.drop_first().len() ==> a.drop_first()[i] == a[i + 1]);
            assert(forall|i: int| 0 <= i < b.drop_first().len() ==> b.drop_first()[i] == b[i + 1]);
        }
        lemma_seq_cmp_equal(a.drop_first(), b.drop_first());
    }
}

/// A strict prefix compares `Less` against the longer sequence, and the
/// longer sequence compares `Greater` against its strict prefix.
pub proof fn lemma_seq_cmp_prefix<T: Ord>(a: Seq<T>, b: Seq<T>)
    requires
        a.len() < b.len(),
        forall|i: int| 0 <= i < a.len() ==> #[trigger] a[i].cmp_spec(&b[i]) == Ordering::Equal,
        forall|i: int| 0 <= i < a.len() ==> #[trigger] b[i].cmp_spec(&a[i]) == Ordering::Equal,
    ensures
        seq_cmp(a, b) == Ordering::Less,
        seq_cmp(b, a) == Ordering::Greater,
    decreases a.len(),
{
    if a.len() > 0 {
        assert(forall|i: int|
            0 <= i < a.drop_first().len() ==> #[trigger] a.drop_first()[i].cmp_spec(
                &b.drop_first()[i],
            ) == Ordering::Equal) by {
            assert(forall|i: int| 0 <= i < a.drop_first().len() ==> a.drop_first()[i] == a[i + 1]);
            assert(forall|i: int| 0 <= i < b.drop_first().len() ==> b.drop_first()[i] == b[i + 1]);
        }
        assert(forall|i: int|
            0 <= i < a.drop_first().len() ==> #[trigger] b.drop_first()[i].cmp_spec(
                &a.drop_first()[i],
            ) == Ordering::Equal) by {
            assert(forall|i: int| 0 <= i < a.drop_first().len() ==> a.drop_first()[i] == a[i + 1]);
            assert(forall|i: int| 0 <= i < b.drop_first().len() ==> b.drop_first()[i] == b[i + 1]);
        }
        lemma_seq_cmp_prefix(a.drop_first(), b.drop_first());
    }
}

} // verus!
