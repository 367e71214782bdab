//! What holds of every layout of this gate.

use crate::field::{field_inv, field_sub, lemma_field_inv_bound, lemma_modulus_bounds, modulus};
use crate::logup::assignments::LogupGate;
use crate::logup::grid::{accumulator, after_table, after_witnesses, helper, row_count};
use vstd::arithmetic::div_mod::{lemma_add_mod_noop, lemma_small_mod, lemma_sub_mod_noop};
use crate::region::{Any, Column};
use crate::witness::{all_below, occurrences, occurrences_in, tuple_below};
use vstd::prelude::*;

verus! {

/// The sum over the table entries `k < n` of `weight(k)` times the number
/// of occurrences of `k` in the tuples.
pub open spec fn table_total(weight: spec_fn(nat) -> nat, tuples: Seq<Seq<Option<nat>>>, n: nat) -> nat
    decreases n,
{
    if n == 0 {
        0
    } else {
        table_total(weight, tuples, (n - 1) as nat) + weight((n - 1) as nat) * occurrences(
            tuples,
            (n - 1) as nat,
        )
    }
}

/// The sum over the table entries `k < n` of `weight(k)` times the number
/// of occurrences of `k` in one tuple.
pub open spec fn table_total_in(weight: spec_fn(nat) -> nat, tuple: Seq<Option<nat>>, n: nat) -> nat
    decreases n,
{
    if n == 0 {
        0
    } else {
        table_total_in(weight, tuple, (n - 1) as nat) + weight((n - 1) as nat) * occurrences_in(
            tuple,
            (n - 1) as nat,
        )
    }
}

/// The sum of `weight` over the known components of a tuple.
pub open spec fn tuple_total(weight: spec_fn(nat) -> nat, tuple: Seq<Option<nat>>) -> nat
    decreases tuple.len(),
{
    if tuple.len() == 0 {
        0
    } else {
        tuple_total(weight, tuple.drop_last()) + match tuple.last() {
            Some(v) => weight(v),
            None => 0,
        }
    }
}

/// The sum of `weight` over the known components of all tuples.
pub open spec fn witness_total(weight: spec_fn(nat) -> nat, tuples: Seq<Seq<Option<nat>>>) -> nat
    decreases tuples.len(),
{
    if tuples.len() == 0 {
        0
    } else {
        witness_total(weight, tuples.drop_last()) + tuple_total(weight, tuples.last())
    }
}

proof fn lemma_table_total_in_push(weight: spec_fn(nat) -> nat, tuple: Seq<Option<nat>>, x: nat, n: nat)
    ensures
        table_total_in(weight, tuple.push(Some(x)), n) == table_total_in(weight, tuple, n) + if x < n {
            weight(x)
        } else {
            0
        },
    decreases n,
{
    if n > 0 {
        let k = (n - 1) as nat;
        lemma_table_total_in_push(weight, tuple, x, k);
        assert(tuple.push(Some(x)).drop_last() =~= tuple);
        let c = occurrences_in(tuple, k);
        assert(weight(k) * (c + 1) == weight(k) * c + weight(k)) by (nonlinear_arith);
    }
}

proof fn lemma_table_total_in_empty(weight: spec_fn(nat) -> nat, tuple: Seq<Option<nat>>, n: nat)
    requires
        tuple.len() == 0,
    ensures
        table_total_in(weight, tuple, n) == 0,
    decreases n,
{
    if n > 0 {
        lemma_table_total_in_empty(weight, tuple, (n - 1) as nat);
        assert(weight((n - 1) as nat) * 0 == 0) by (nonlinear_arith);
    }
}

/// Grouped by table entry or taken one by one, the components of a tuple
/// within the table weigh the same.
pub proof fn lemma_tuple_regroup(weight: spec_fn(nat) -> nat, tuple: Seq<Option<nat>>, n: nat)
    requires
        tuple_below(tuple, n),
    ensures
        table_total_in(weight, tuple, n) == tuple_total(weight, tuple),
    decreases tuple.len(),
{
    if tuple.len() == 0 {
        lemma_table_total_in_empty(weight, tuple, n);
    } else {
        let x = tuple.last().unwrap();
        lemma_tuple_regroup(weight, tuple.drop_last(), n);
        lemma_table_total_in_push(weight, tuple.drop_last(), x, n);
        assert(tuple.drop_last().push(Some(x)) =~= tuple);
    }
}

proof fn lemma_table_total_push(
    weight: spec_fn(nat) -> nat,
    tuples: Seq<Seq<Option<nat>>>,
    tuple: Seq<Option<nat>>,
    n: nat,
)
    ensures
        table_total(weight, tuples.push(tuple), n) == table_total(weight, tuples, n) + table_total_in(
            weight,
            tuple,
            n,
        ),
    decreases n,
{
    if n > 0 {
        let k = (n - 1) as nat;
        lemma_table_total_push(weight, tuples, tuple, k);
        assert(tuples.push(tuple).drop_last() =~= tuples);
        let (a, b) = (occurrences(tuples, k), occurrences_in(tuple, k));
        assert(weight(k) * (a + b) == weight(k) * a + weight(k) * b) by (nonlinear_arith);
    }
}

proof fn lemma_table_total_empty(weight: spec_fn(nat) -> nat, tuples: Seq<Seq<Option<nat>>>, n: nat)
    requires
        tuples.len() == 0,
    ensures
        table_total(weight, tuples, n) == 0,
    decreases n,
{
    if n > 0 {
        lemma_table_total_empty(weight, tuples, (n - 1) as nat);
        assert(weight((n - 1) as nat) * 0 == 0) by (nonlinear_arith);
    }
}

/// Grouped by table entry, with each entry's multiplicity, or taken one by
/// one, witnesses within the table weigh the same.
pub proof fn lemma_regroup(weight: spec_fn(nat) -> nat, tuples: Seq<Seq<Option<nat>>>, n: nat)
    requires
        all_below(tuples, n),
    ensures
        table_total(weight, tuples, n) == witness_total(weight, tuples),
    decreases tuples.len(),
{
    if tuples.len() == 0 {
        lemma_table_total_empty(weight, tuples, n);
    } else {
        let rest = tuples.drop_last();
        let tuple = tuples.last();
        assert(all_below(rest, n)) by {
            assert forall|i: int, j: int| 0 <= i < rest.len() && 0 <= j < rest[i].len() implies (
            #[trigger] rest[i][j] matches Some(v) && v < n) by {
                assert(rest[i] == tuples[i]);
                assert(tuples[i][j] is Some);
            }
        }
        assert(tuple_below(tuple, n)) by {
            assert forall|j: int| 0 <= j < tuple.len() implies (#[trigger] tuple[j] matches Some(v) && v < n) by {
                assert(tuples[tuples.len() - 1][j] is Some);
            }
        }
        lemma_regroup(weight, rest, n);
        lemma_tuple_regroup(weight, tuple, n);
        lemma_table_total_push(weight, rest, tuple, n);
        assert(rest.push(tuple) =~= tuples);
    }
}

/// The weight that the challenge `alpha` gives a value: `1 / (alpha - x)`.
pub open spec fn inverse_weight(alpha: nat) -> spec_fn(nat) -> nat {
    |x: nat| field_inv(field_sub(alpha, x))
}

/// `value` reduced modulo the characteristic.
pub open spec fn reduced(value: int) -> nat {
    (value % (modulus() as int)) as nat
}

proof fn lemma_after_witnesses(alpha: nat, start: int, tuple: Seq<Option<nat>>, j: nat)
    requires
        j <= tuple.len(),
        forall|k: int| 0 <= k < tuple.len() ==> (#[trigger] tuple[k]) is Some,
    ensures
        after_witnesses(Some(alpha), Some(reduced(start)), tuple, j) == Some(
            reduced(start - tuple_total(inverse_weight(alpha), tuple.take(j as int))),
        ),
    decreases j,
{
    let p = modulus() as int;
    lemma_modulus_bounds();
    if j == 0 {
        assert(tuple.take(0).len() == 0);
    } else {
        lemma_after_witnesses(alpha, start, tuple, (j - 1) as nat);
        assert(tuple.take(j as int).drop_last() =~= tuple.take(j - 1));
        assert(tuple[j - 1] is Some);
        let x = tuple[j - 1].unwrap();
        let h = field_inv(field_sub(alpha, x));
        let before = start - tuple_total(inverse_weight(alpha), tuple.take(j - 1));
        lemma_field_inv_bound(field_sub(alpha, x));
        lemma_small_mod(h, modulus());
        lemma_sub_mod_noop(before, h as int, p);
        assert(helper(Some(alpha), tuple[j - 1]) == Some(h));
    }
}

/// With every witness known, the running sum on entry to row `i` is the
/// table's contribution so far less the witnesses' contribution so far.
#[verifier::rlimit(50)]
pub proof fn lemma_accumulator(alpha: nat, tuples: Seq<Seq<Option<nat>>>, table_len: nat, i: nat)
    requires
        forall|r: int, j: int| 0 <= r < tuples.len() && 0 <= j < tuples[r].len() ==> (#[trigger] tuples[r][j]) is Some,
    ensures
        accumulator(Some(alpha), tuples, table_len, i) == Some(
            reduced(
                table_total(inverse_weight(alpha), tuples, if i < table_len {
                    i
                } else {
                    table_len
                }) - witness_total(
                    inverse_weight(alpha),
                    tuples.take(
                        if i < tuples.len() {
                            i as int
                        } else {
                            tuples.len() as int
                        },
                    ),
                ),
            ),
        ),
    decreases i,
{
    let p = modulus() as int;
    let weight = inverse_weight(alpha);
    lemma_modulus_bounds();
    if i == 0 {
        assert(tuples.take(0).len() == 0);
        lemma_small_mod(0, modulus());
    } else {
        let row = (i - 1) as nat;
        lemma_accumulator(alpha, tuples, table_len, row);
        let table_before = table_total(weight, tuples, if row < table_len {
            row
        } else {
            table_len
        });
        let taken = if row < tuples.len() {
            row as int
        } else {
            tuples.len() as int
        };
        let witness_before = witness_total(weight, tuples.take(taken));
        let before = table_before - witness_before;
        let table_after = table_total(weight, tuples, if i < table_len {
            i
        } else {
            table_len
        });
        let with_table = table_after - witness_before;
        assert(after_table(Some(alpha), tuples, table_len, Some(reduced(before)), row) == Some(
            reduced(with_table),
        )) by {
            if row < table_len {
                let term = weight(row) * occurrences(tuples, row);
                lemma_add_mod_noop(before, term as int, p);
            }
        }
        if row < tuples.len() {
            let tuple = tuples[row as int];
            assert forall|k: int| 0 <= k < tuple.len() implies (#[trigger] tuple[k]) is Some by {
                assert(tuples[row as int][k] is Some);
            }
            lemma_after_witnesses(alpha, with_table, tuple, tuple.len());
            assert(tuple.take(tuple.len() as int) =~= tuple);
            assert(tuples.take(i as int).drop_last() =~= tuples.take(row as int));
            assert(tuples.take(i as int).last() == tuple);
        }
    }
}

/// Completeness: with every witness in the table, the final running sum is
/// zero, whatever the challenge.
pub proof fn lemma_complete(alpha: nat, tuples: Seq<Seq<Option<nat>>>, table_len: nat)
    requires
        all_below(tuples, table_len),
    ensures
        accumulator(Some(alpha), tuples, table_len, row_count(tuples, table_len)) == Some(0nat),
{
    let rows = row_count(tuples, table_len);
    assert forall|r: int, j: int| 0 <= r < tuples.len() && 0 <= j < tuples[r].len() implies (
    #[trigger] tuples[r][j]) is Some by {
        assert(tuples[r][j] matches Some(v) && v < table_len);
    }
    lemma_accumulator(alpha, tuples, table_len, rows);
    lemma_regroup(inverse_weight(alpha), tuples, table_len);
    assert(tuples.take(tuples.len() as int) =~= tuples);
    lemma_modulus_bounds();
    lemma_small_mod(0, modulus());
}

/// The sum of the multiplicities of the table entries below `n`.
pub open spec fn multiplicity_total(tuples: Seq<Seq<Option<nat>>>, n: nat) -> nat
    decreases n,
{
    if n == 0 {
        0
    } else {
        multiplicity_total(tuples, (n - 1) as nat) + occurrences(tuples, (n - 1) as nat)
    }
}

proof fn lemma_unit_table_total(tuples: Seq<Seq<Option<nat>>>, n: nat)
    ensures
        table_total(|x: nat| 1nat, tuples, n) == multiplicity_total(tuples, n),
    decreases n,
{
    if n > 0 {
        lemma_unit_table_total(tuples, (n - 1) as nat);
    }
}

proof fn lemma_unit_tuple_total(tuple: Seq<Option<nat>>)
    requires
        forall|j: int| 0 <= j < tuple.len() ==> (#[trigger] tuple[j]) is Some,
    ensures
        tuple_total(|x: nat| 1nat, tuple) == tuple.len(),
    decreases tuple.len(),
{
    if tuple.len() > 0 {
        lemma_unit_tuple_total(tuple.drop_last());
    }
}

proof fn lemma_unit_witness_total(tuples: Seq<Seq<Option<nat>>>, width: nat)
    requires
        forall|i: int| 0 <= i < tuples.len() ==> (#[trigger] tuples[i]).len() == width,
        forall|r: int, j: int| 0 <= r < tuples.len() && 0 <= j < tuples[r].len() ==> (#[trigger] tuples[r][j]) is Some,
    ensures
        witness_total(|x: nat| 1nat, tuples) == tuples.len() * width,
    decreases tuples.len(),
{
    if tuples.len() > 0 {
        let rest = tuples.drop_last();
        assert forall|r: int, j: int| 0 <= r < rest.len() && 0 <= j < rest[r].len() implies (
        #[trigger] rest[r][j]) is Some by {
            assert(tuples[r][j] is Some);
        }
        lemma_unit_witness_total(rest, width);
        assert forall|j: int| 0 <= j < tuples.last().len() implies (#[trigger] tuples.last()[j]) is Some by {
            assert(tuples[tuples.len() - 1][j] is Some);
        }
        lemma_unit_tuple_total(tuples.last());
        assert((tuples.len() - 1) * width + width == tuples.len() * width) by (nonlinear_arith);
    } else {
        assert(0 * width == 0) by (nonlinear_arith);
    }
}

/// Multiplicity conservation: with every witness among the first `n`
/// values, the multiplicities of those values add up to the number of
/// witness cells, `width` for each lookup.
pub proof fn lemma_multiplicities_conserved(tuples: Seq<Seq<Option<nat>>>, width: nat, n: nat)
    requires
        forall|i: int| 0 <= i < tuples.len() ==> (#[trigger] tuples[i]).len() == width,
        all_below(tuples, n),
    ensures
        multiplicity_total(tuples, n) == tuples.len() * width,
{
    assert forall|r: int, j: int| 0 <= r < tuples.len() && 0 <= j < tuples[r].len() implies (
    #[trigger] tuples[r][j]) is Some by {
        assert(tuples[r][j] matches Some(v) && v < n);
    }
    lemma_unit_table_total(tuples, n);
    lemma_regroup(|x: nat| 1nat, tuples, n);
    lemma_unit_witness_total(tuples, width);
}

/// While the challenge is unknown, so is the running sum past the first
/// row of a table that is not empty.
pub proof fn lemma_unknown_challenge(tuples: Seq<Seq<Option<nat>>>, table_len: nat, i: nat)
    requires
        table_len >= 1,
        i >= 1,
    ensures
        accumulator(None, tuples, table_len, i) is None,
    decreases i,
{
    let row = (i - 1) as nat;
    if row >= 1 {
        lemma_unknown_challenge(tuples, table_len, row);
    }
    let acc = after_table(None, tuples, table_len, accumulator(None, tuples, table_len, row), row);
    assert(acc is None);
    if row < tuples.len() {
        lemma_unknown_stays(acc, tuples[row as int], tuples[row as int].len());
    }
}

proof fn lemma_unknown_stays(acc: Option<nat>, tuple: Seq<Option<nat>>, j: nat)
    requires
        acc is None,
    ensures
        after_witnesses(None, acc, tuple, j) is None,
    decreases j,
{
    if j > 0 {
        lemma_unknown_stays(acc, tuple, (j - 1) as nat);
    }
}

/// Completeness: where every buffered component is known and lies in the
/// table, the final running sum is zero for every known challenge, and
/// the layout is not refused, whether the challenge is known or not.
pub proof fn lemma_completeness<const W: usize, const K: usize>(gate: LogupGate<W, K>, alpha: Option<nat>)
    requires
        gate.wf(),
        all_below(gate.witnesses(), gate.table_len()),
    ensures
        alpha is Some ==> gate.accumulator(alpha, gate.rows()) == Some(0nat),
        !gate.unbalanced(alpha),
{
    match alpha {
        Some(a) => {
            lemma_complete(a, gate.witnesses(), gate.table_len());
        },
        None => {
            vstd::arithmetic::power2::lemma_pow2_pos(gate.bit_size());
            lemma_unknown_challenge(gate.witnesses(), gate.table_len(), gate.rows());
        },
    }
}

/// Multiplicity conservation: where every buffered component is known and
/// lies in the table, the multiplicities that this gate keeps for the table
/// entries add up to the number of buffered components, `W` for each
/// lookup.
pub proof fn lemma_conservation<const W: usize, const K: usize>(gate: LogupGate<W, K>)
    requires
        gate.wf(),
        all_below(gate.witnesses(), gate.table_len()),
    ensures
        forall|k: nat| k < gate.table_len() ==> gate.multiplicity(k) == occurrences(gate.witnesses(), k),
        multiplicity_total(gate.witnesses(), gate.table_len()) == gate.witnesses().len() * W,
{
    gate.lemma_wf();
    lemma_modulus_bounds();
    lemma_multiplicities_conserved(gate.witnesses(), W as nat, gate.table_len());
}

/// Alignment: the layout has as many rows as the longer of table and
/// witness buffer, and one more for the final sum.  At a row past the
/// table the table marker is off and helper and multiplicity are zero; at a
/// row past the buffer the witness marker is off and each witness and its
/// helper are zero.
#[verifier::rlimit(50)]
pub proof fn lemma_alignment<const W: usize, const K: usize>(gate: LogupGate<W, K>, alpha: Option<nat>, row: nat)
    requires
        gate.wf(),
    ensures
        gate.rows() >= gate.table_len(),
        gate.rows() >= gate.witnesses().len(),
        gate.rows() == gate.table_len() || gate.rows() == gate.witnesses().len(),
        gate.grid(alpha).contains_key((gate.cfg().acc.any(), row)) <==> row <= gate.rows(),
        forall|column: Column<Any>|
            gate.grid(alpha).contains_key((column, row)) && column != gate.cfg().acc.any() ==> row < gate.rows(),
        gate.selector_rows().contains((gate.cfg().s_acc, row)) <==> row < gate.rows(),
        gate.selector_rows().contains((gate.cfg().s_table, row)) <==> row < gate.table_len(),
        gate.selector_rows().contains((gate.cfg().s_witness, row)) <==> row < gate.witnesses().len(),
        gate.table_len() <= row < gate.rows() ==> {
            &&& !gate.grid(alpha).contains_key((gate.cfg().t.any(), row))
            &&& gate.grid(alpha)[(gate.cfg().t_helper.any(), row)] == Some(0nat)
            &&& gate.grid(alpha)[(gate.cfg().m.any(), row)] == Some(0nat)
        },
        gate.witnesses().len() <= row < gate.rows() ==> forall|j: int|
            0 <= j < W ==> {
                &&& gate.grid(alpha)[(#[trigger] gate.cfg().w@[j].any(), row)] == Some(0nat)
                &&& gate.grid(alpha)[(gate.cfg().w_helper@[j].any(), row)] == Some(0nat)
            },
{
    gate.lemma_wf();
    let cfg = gate.cfg();
    cfg.lemma_column_slot(0);
    cfg.lemma_column_slot(1);
    cfg.lemma_column_slot(2);
    cfg.lemma_column_slot(3);
    assert forall|j: int| 0 <= j < W implies cfg.slot(#[trigger] cfg.w@[j].any()) == Some((4 + 2 * j) as nat)
        && cfg.slot(cfg.w_helper@[j].any()) == Some((5 + 2 * j) as nat) by {
        cfg.lemma_column_slot((4 + 2 * j) as nat);
        cfg.lemma_column_slot((5 + 2 * j) as nat);
    }
}

/// Width: each row with a witness tuple subtracts the helpers of all its
/// `W` components from the running sum, after the row's table term is
/// added.
pub proof fn lemma_width<const W: usize, const K: usize>(gate: LogupGate<W, K>, alpha: Option<nat>, row: nat)
    requires
        gate.wf(),
        row < gate.witnesses().len(),
    ensures
        gate.witnesses()[row as int].len() == W,
        gate.accumulator(alpha, row + 1) == after_witnesses(
            alpha,
            after_table(alpha, gate.witnesses(), gate.table_len(), gate.accumulator(alpha, row), row),
            gate.witnesses()[row as int],
            W as nat,
        ),
{
    gate.lemma_wf();
}

} // verus!
