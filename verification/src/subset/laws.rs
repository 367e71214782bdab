//! What holds of every layout of the subset gate.

use crate::field::{lemma_modulus_bounds, modulus};
use crate::plonk::cell_value;
use crate::subset::assignments::{expected_cell, grid, selector_rows, SubsetGate};
use crate::witness::all_below;
use vstd::arithmetic::div_mod::lemma_small_mod;
use vstd::prelude::*;

verus! {

/// What witness column `i` looks up at `row` of the layout: the `i`-th
/// component of the row's tuple, reduced, and zero at a row without a
/// tuple or while the component is unknown.
pub proof fn lemma_lookup_input<const W: usize>(gate: SubsetGate<W>, i: int, row: int)
    requires
        gate.wf(),
        0 <= i < W,
    ensures
        gate.cfg().lookup_input(
            i,
            grid(gate.cfg(), gate.witnesses()),
            selector_rows(gate.cfg(), gate.witnesses().len()),
            row,
        ) == if 0 <= row < gate.witnesses().len() {
            match gate.witnesses()[row][i] {
                Some(v) => v % modulus(),
                None => 0,
            }
        } else {
            0
        },
{
    gate.lemma_wf();
    let cfg = gate.cfg();
    let tuples = gate.witnesses();
    let cells = grid(cfg, tuples);
    let column = cfg.w@[i].any();
    lemma_modulus_bounds();
    lemma_small_mod(0, modulus());
    let x = cell_value(cells, column, row);
    if 0 <= row < tuples.len() {
        let j = choose|j: int| 0 <= j < cfg.w@.len() && column == (#[trigger] cfg.w@[j]).any();
        assert(j == i);
        assert(expected_cell(cfg, tuples, column, row as nat) == Some(tuples[row][i]));
        assert(1 * x == x) by (nonlinear_arith);
    } else {
        assert(0 * x == 0) by (nonlinear_arith);
    }
}

/// Completeness: where every buffered component lies in the table, what
/// each witness column looks up at any row is a table entry.
pub proof fn lemma_completeness<const W: usize>(gate: SubsetGate<W>, i: int, row: int)
    requires
        gate.wf(),
        all_below(gate.witnesses(), gate.table_len()),
        0 <= i < W,
    ensures
        gate.cfg().lookup_input(
            i,
            grid(gate.cfg(), gate.witnesses()),
            selector_rows(gate.cfg(), gate.witnesses().len()),
            row,
        ) < gate.table_len(),
{
    gate.lemma_wf();
    lemma_lookup_input(gate, i, row);
    lemma_modulus_bounds();
    vstd::arithmetic::power2::lemma_pow2_pos(gate.bit_size());
    if 0 <= row < gate.witnesses().len() {
        assert(gate.witnesses()[row][i] matches Some(v) && v < gate.table_len());
        lemma_small_mod(gate.witnesses()[row][i].unwrap(), modulus());
    }
}

/// Rejection: a buffered component that is a field element outside the
/// table is looked up as it is, and is no table entry.
pub proof fn lemma_rejection<const W: usize>(gate: SubsetGate<W>, i: int, row: int, v: nat)
    requires
        gate.wf(),
        0 <= i < W,
        0 <= row < gate.witnesses().len(),
        gate.witnesses()[row][i] == Some(v),
        gate.table_len() <= v < modulus(),
    ensures
        gate.cfg().lookup_input(
            i,
            grid(gate.cfg(), gate.witnesses()),
            selector_rows(gate.cfg(), gate.witnesses().len()),
            row,
        ) == v,
        !(v < gate.table_len()),
{
    lemma_lookup_input(gate, i, row);
    lemma_small_mod(v, modulus());
}

} // verus!
