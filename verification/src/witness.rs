//! Buffered witness tuples, as sequences of deferred field elements.

use crate::field::Scalar;
use vstd::prelude::*;

verus! {

/// The value of a deferred scalar: `None` while it is unknown.
pub open spec fn deferred_scalar(x: Option<Scalar>) -> Option<nat> {
    match x {
        Some(s) => Some(s@),
        None => None,
    }
}

/// The values of a tuple of deferred scalars.
pub open spec fn values_of(tuple: Seq<Option<Scalar>>) -> Seq<Option<nat>> {
    tuple.map_values(|x: Option<Scalar>| deferred_scalar(x))
}

/// How many components of `tuple` are known to be `v`.
pub open spec fn occurrences_in(tuple: Seq<Option<nat>>, v: nat) -> nat
    decreases tuple.len(),
{
    if tuple.len() == 0 {
        0
    } else {
        occurrences_in(tuple.drop_last(), v) + if tuple.last() == Some(v) {
            1nat
        } else {
            0nat
        }
    }
}

/// How many components of all the tuples are known to be `v`.
pub open spec fn occurrences(tuples: Seq<Seq<Option<nat>>>, v: nat) -> nat
    decreases tuples.len(),
{
    if tuples.len() == 0 {
        0
    } else {
        occurrences(tuples.drop_last(), v) + occurrences_in(tuples.last(), v)
    }
}

/// A value occurs in a tuple at most once per component.
pub proof fn lemma_occurrences_in_bound(tuple: Seq<Option<nat>>, v: nat)
    ensures
        occurrences_in(tuple, v) <= tuple.len(),
    decreases tuple.len(),
{
    if tuple.len() > 0 {
        lemma_occurrences_in_bound(tuple.drop_last(), v);
    }
}

/// A value occurs in tuples of width `w` at most `w` times per tuple.
pub proof fn lemma_occurrences_bound(tuples: Seq<Seq<Option<nat>>>, w: nat, v: nat)
    requires
        forall|i: int| 0 <= i < tuples.len() ==> (#[trigger] tuples[i]).len() == w,
    ensures
        occurrences(tuples, v) <= tuples.len() * w,
    decreases tuples.len(),
{
    if tuples.len() > 0 {
        lemma_occurrences_bound(tuples.drop_last(), w, v);
        lemma_occurrences_in_bound(tuples.last(), v);
        assert((tuples.len() - 1) * w + w == tuples.len() * w) by (nonlinear_arith);
    } else {
        assert(0 * w == 0) by (nonlinear_arith);
    }
}

/// Every component of every tuple is known and lies in `{0, .., bound - 1}`.
pub open spec fn all_below(tuples: Seq<Seq<Option<nat>>>, bound: nat) -> bool {
    forall|i: int, j: int|
        0 <= i < tuples.len() && 0 <= j < tuples[i].len() ==> (#[trigger] tuples[i][j] matches Some(v) && v
            < bound)
}

/// Every component of the tuple is known and lies in `{0, .., bound - 1}`.
pub open spec fn tuple_below(tuple: Seq<Option<nat>>, bound: nat) -> bool {
    forall|j: int| 0 <= j < tuple.len() ==> (#[trigger] tuple[j] matches Some(v) && v < bound)
}

} // verus!
