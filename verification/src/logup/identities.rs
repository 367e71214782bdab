//! The layout satisfies the identities that the configuration declares.

use crate::field::{
    field_add, field_inv, field_mul, field_sub, is_inverse, lemma_field_inv_bound, lemma_modulus_bounds, modulus,
};
use crate::logup::assignments::LogupGate;
use crate::logup::config::{column_sum, LogupConfig};
use crate::logup::grid::{expected_cell, grid, row_count, selector_rows};
use crate::logup::laws::{
    inverse_weight, lemma_accumulator, lemma_complete, reduced, table_total, tuple_total,
    witness_total,
};
use crate::plonk::{cell_value, challenge_value, selector_value, ConstraintSystem, Gate};
use crate::witness::{all_below, occurrences};
use vstd::arithmetic::div_mod::{
    lemma_add_mod_noop, lemma_mul_mod_noop_left, lemma_small_mod, lemma_sub_mod_noop,
};
use vstd::prelude::*;

verus! {

/// `d` has a multiplicative inverse.
pub open spec fn invertible(d: nat) -> bool {
    exists|y: nat| is_inverse(d, y)
}

/// Every witness is known, and `alpha` differs from every table entry and
/// every witness by an invertible element: all the helpers exist.
pub open spec fn helpers_exist(alpha: nat, tuples: Seq<Seq<Option<nat>>>, table_len: nat) -> bool {
    &&& forall|k: nat| k < table_len ==> invertible(#[trigger] field_sub(alpha, k))
    &&& forall|i: int, j: int|
        0 <= i < tuples.len() && 0 <= j < tuples[i].len() ==> (#[trigger] tuples[i][j] matches Some(v)
            && invertible(field_sub(alpha, v)))
}

/// A helper times what it inverts, less one, is zero.
pub proof fn lemma_helper_identity(d: nat)
    requires
        invertible(d),
    ensures
        field_sub(field_mul(field_inv(d), d), 1) == 0,
{
    let y = field_inv(d);
    assert(is_inverse(d, y));
    assert(y * d == d * y) by (nonlinear_arith);
    lemma_modulus_bounds();
    lemma_small_mod(0, modulus());
}

/// Zero times anything is zero.
pub proof fn lemma_field_mul_zero(x: nat)
    ensures
        field_mul(0, x) == 0,
{
    assert(0 * x == 0) by (nonlinear_arith);
    lemma_modulus_bounds();
    lemma_small_mod(0, modulus());
}

/// One times an element is the element, reduced.
pub proof fn lemma_field_mul_unit(x: nat)
    ensures
        field_mul(1, x) == reduced(x as int),
{
    assert(1 * x == x) by (nonlinear_arith);
}

/// What the configuration's columns hold in the layout.
pub proof fn lemma_cells(
    cfg: LogupConfig,
    alpha: Option<nat>,
    tuples: Seq<Seq<Option<nat>>>,
    table_len: nat,
    s: nat,
    row: int,
)
    requires
        cfg.wf(),
        s < 4 + 2 * cfg.width(),
    ensures
        cell_value(grid(cfg, alpha, tuples, table_len), cfg.column_at(s), row) == if row >= 0 {
            match expected_cell(cfg, alpha, tuples, table_len, cfg.column_at(s), row as nat) {
                Some(Some(v)) => v,
                _ => 0,
            }
        } else {
            0
        },
        cfg.slot(cfg.column_at(s)) == Some(s),
{
    cfg.lemma_column_slot(s);
}

/// The helper columns of a row with a witness tuple add up to the sum of
/// the helpers of the tuple's components.
proof fn lemma_column_sum(
    cfg: LogupConfig,
    alpha: nat,
    tuples: Seq<Seq<Option<nat>>>,
    table_len: nat,
    row: nat,
    n: nat,
)
    requires
        cfg.wf(),
        row < tuples.len(),
        tuples[row as int].len() == cfg.width(),
        forall|j: int| 0 <= j < tuples[row as int].len() ==> (#[trigger] tuples[row as int][j]) is Some,
        1 <= n <= cfg.width(),
    ensures
        column_sum(grid(cfg, Some(alpha), tuples, table_len), cfg.w_helper@, row as int, n) == reduced(
            tuple_total(inverse_weight(alpha), tuples[row as int].take(n as int)) as int,
        ),
    decreases n,
{
    let cells = grid(cfg, Some(alpha), tuples, table_len);
    let tuple = tuples[row as int];
    let weight = inverse_weight(alpha);
    let j = (n - 1) as int;
    let s = (5 + 2 * j) as nat;
    lemma_cells(cfg, Some(alpha), tuples, table_len, s, row as int);
    assert(cfg.column_at(s) == cfg.w_helper@[j].any());
    assert(tuple[j] is Some);
    let v = tuple[j].unwrap();
    let h = weight(v);
    assert(cell_value(cells, cfg.w_helper@[j].any(), row as int) == h);
    lemma_field_inv_bound(field_sub(alpha, v));
    lemma_small_mod(h, modulus());
    lemma_modulus_bounds();
    assert(tuple.take(n as int).drop_last() =~= tuple.take(j));
    assert(tuple.take(n as int).last() == tuple[j]);
    if n == 1 {
        assert(tuple.take(0).len() == 0);
    } else {
        lemma_column_sum(cfg, alpha, tuples, table_len, row, (n - 1) as nat);
        let before = tuple_total(weight, tuple.take(j));
        lemma_add_mod_noop(before as int, h as int, modulus() as int);
    }
}

/// With all helpers in existence, the layout satisfies table-helper
/// correctness at every row.
pub proof fn lemma_table_helper(
    cfg: LogupConfig,
    alpha: nat,
    tuples: Seq<Seq<Option<nat>>>,
    table_len: nat,
    challenges: Map<nat, nat>,
    row: int,
)
    requires
        cfg.wf(),
        cfg.width() >= 1,
        table_len >= 1,
        forall|i: int| 0 <= i < tuples.len() ==> (#[trigger] tuples[i]).len() == cfg.width(),
        challenge_value(challenges, cfg.alpha) == alpha,
        helpers_exist(alpha, tuples, table_len),
    ensures
        cfg.table_helper_identity(
            grid(cfg, Some(alpha), tuples, table_len),
            selector_rows(cfg, tuples, table_len),
            challenges,
            row,
        ) == 0,
{
    let cells = grid(cfg, Some(alpha), tuples, table_len);
    let selectors = selector_rows(cfg, tuples, table_len);
    lemma_modulus_bounds();
    lemma_small_mod(0, modulus());
    lemma_cells(cfg, Some(alpha), tuples, table_len, 1, row);
    lemma_cells(cfg, Some(alpha), tuples, table_len, 2, row);
    assert(cfg.table_helper_identity(cells, selectors, challenges, row) == 0) by {
        if 0 <= row < table_len {
            let d = field_sub(alpha, row as nat);
            assert(invertible(d));
            lemma_helper_identity(d);
            lemma_field_mul_unit(0);
        } else {
            lemma_field_mul_zero(
                field_sub(
                    field_mul(
                        cell_value(cells, cfg.t_helper.any(), row),
                        field_sub(challenge_value(challenges, cfg.alpha), cell_value(cells, cfg.t.any(), row)),
                    ),
                    1,
                ),
            );
        }
    }

}

/// With all helpers in existence, the layout satisfies witness-helper
/// correctness for every witness column at every row.
pub proof fn lemma_witness_helper(
    cfg: LogupConfig,
    alpha: nat,
    tuples: Seq<Seq<Option<nat>>>,
    table_len: nat,
    challenges: Map<nat, nat>,
    row: int,
)
    requires
        cfg.wf(),
        cfg.width() >= 1,
        table_len >= 1,
        forall|i: int| 0 <= i < tuples.len() ==> (#[trigger] tuples[i]).len() == cfg.width(),
        challenge_value(challenges, cfg.alpha) == alpha,
        helpers_exist(alpha, tuples, table_len),
    ensures
        forall|j: int|
            0 <= j < cfg.width() ==> #[trigger] cfg.witness_helper_identity(
                j,
                grid(cfg, Some(alpha), tuples, table_len),
                selector_rows(cfg, tuples, table_len),
                challenges,
                row,
            ) == 0,
{
    let cells = grid(cfg, Some(alpha), tuples, table_len);
    let selectors = selector_rows(cfg, tuples, table_len);
    lemma_modulus_bounds();
    lemma_small_mod(0, modulus());
    assert forall|j: int| 0 <= j < cfg.width() implies #[trigger] cfg.witness_helper_identity(
        j,
        cells,
        selectors,
        challenges,
        row,
    ) == 0 by {
        lemma_cells(cfg, Some(alpha), tuples, table_len, (4 + 2 * j) as nat, row);
        lemma_cells(cfg, Some(alpha), tuples, table_len, (5 + 2 * j) as nat, row);
        assert(cfg.column_at((4 + 2 * j) as nat) == cfg.w@[j].any());
        assert(cfg.column_at((5 + 2 * j) as nat) == cfg.w_helper@[j].any());
        if 0 <= row < tuples.len() {
            assert(tuples[row][j] matches Some(v) && invertible(field_sub(alpha, v)));
            let v = tuples[row][j].unwrap();
            lemma_helper_identity(field_sub(alpha, v));
            lemma_field_mul_unit(0);
        } else {
            lemma_field_mul_zero(
                field_sub(
                    field_mul(
                        cell_value(cells, cfg.w_helper@[j].any(), row),
                        field_sub(
                            challenge_value(challenges, cfg.alpha),
                            cell_value(cells, cfg.w@[j].any(), row),
                        ),
                    ),
                    1,
                ),
            );
        }
    }

}

/// A running sum that grows by the table's term less the witnesses' term
/// closes the step identity.
proof fn lemma_step_closes(
    table_part: nat,
    witness_part: nat,
    acc: nat,
    next: nat,
    table_term: int,
    witness_term: int,
    before: int,
)
    requires
        table_part == reduced(table_term),
        witness_part == reduced(witness_term),
        acc == reduced(before),
        next == reduced(before + table_term - witness_term),
    ensures
        field_sub(field_add(field_sub(table_part, witness_part), acc), next) == 0,
{
    let p = modulus() as int;
    lemma_modulus_bounds();
    lemma_small_mod(0, modulus());
    lemma_sub_mod_noop(table_term, witness_term, p);
    lemma_add_mod_noop(table_term - witness_term, before, p);
    lemma_sub_mod_noop(table_term - witness_term + before, before + table_term - witness_term, p);
}

/// With every witness known, the layout satisfies the step of the running
/// sum at every row.
#[verifier::rlimit(50)]
pub proof fn lemma_grand_sum(
    cfg: LogupConfig,
    alpha: nat,
    tuples: Seq<Seq<Option<nat>>>,
    table_len: nat,
    challenges: Map<nat, nat>,
    row: int,
)
    requires
        cfg.wf(),
        cfg.width() >= 1,
        table_len >= 1,
        forall|i: int| 0 <= i < tuples.len() ==> (#[trigger] tuples[i]).len() == cfg.width(),
        challenge_value(challenges, cfg.alpha) == alpha,
        helpers_exist(alpha, tuples, table_len),
    ensures
        cfg.grand_sum_identity(
            grid(cfg, Some(alpha), tuples, table_len),
            selector_rows(cfg, tuples, table_len),
            challenges,
            row,
        ) == 0,
{
    let cells = grid(cfg, Some(alpha), tuples, table_len);
    let selectors = selector_rows(cfg, tuples, table_len);
    let rows = row_count(tuples, table_len);
    let p = modulus() as int;
    let weight = inverse_weight(alpha);
    lemma_modulus_bounds();
    lemma_small_mod(0, modulus());
    lemma_cells(cfg, Some(alpha), tuples, table_len, 0, row);
    lemma_cells(cfg, Some(alpha), tuples, table_len, 0, row + 1);
    lemma_cells(cfg, Some(alpha), tuples, table_len, 1, row);
    lemma_cells(cfg, Some(alpha), tuples, table_len, 2, row);
    lemma_cells(cfg, Some(alpha), tuples, table_len, 3, row);
    assert forall|r: int, j: int| 0 <= r < tuples.len() && 0 <= j < tuples[r].len() implies (
    #[trigger] tuples[r][j]) is Some by {
        assert(tuples[r][j] matches Some(v) && invertible(field_sub(alpha, v)));
    }

    assert(cfg.grand_sum_identity(cells, selectors, challenges, row) == 0) by {
        let step = field_sub(
            field_add(
                field_sub(
                    field_mul(
                        field_mul(selector_value(selectors, cfg.s_table, row), cell_value(cells, cfg.m.any(), row)),
                        cell_value(cells, cfg.t_helper.any(), row),
                    ),
                    field_mul(
                        selector_value(selectors, cfg.s_witness, row),
                        column_sum(cells, cfg.w_helper@, row, cfg.w_helper@.len()),
                    ),
                ),
                cell_value(cells, cfg.acc.any(), row),
            ),
            cell_value(cells, cfg.acc.any(), row + 1),
        );
        if 0 <= row < rows {
            let r = row as nat;
            lemma_accumulator(alpha, tuples, table_len, r);
            lemma_accumulator(alpha, tuples, table_len, r + 1);
            let table_before = table_total(weight, tuples, if r < table_len {
                r
            } else {
                table_len
            });
            let witness_before = witness_total(
                weight,
                tuples.take(
                    if r < tuples.len() {
                        r as int
                    } else {
                        tuples.len() as int
                    },
                ),
            );
            let before = table_before - witness_before;
            let table_term: int = if r < table_len {
                (weight(r) * occurrences(tuples, r)) as int
            } else {
                0
            };
            let witness_term: int = if r < tuples.len() {
                tuple_total(weight, tuples[row]) as int
            } else {
                0
            };
            assert(cell_value(cells, cfg.acc.any(), row) == reduced(before));
            assert(cell_value(cells, cfg.acc.any(), row + 1) == reduced(before + table_term - witness_term)) by {
                if r < tuples.len() {
                    assert(tuples.take(row + 1).drop_last() =~= tuples.take(r as int));
                    assert(tuples.take(row + 1).last() == tuples[row]);
                }
            }
            let table_part = field_mul(
                field_mul(selector_value(selectors, cfg.s_table, row), cell_value(cells, cfg.m.any(), row)),
                cell_value(cells, cfg.t_helper.any(), row),
            );
            assert(table_part == reduced(table_term)) by {
                if r < table_len {
                    let occ = occurrences(tuples, r);
                    lemma_field_mul_unit(occ);
                    lemma_mul_mod_noop_left(occ as int, weight(r) as int, p);
                    assert(occ * weight(r) == weight(r) * occ) by (nonlinear_arith);
                } else {
                    lemma_field_mul_zero(0);
                }
            }
            let witness_part = field_mul(
                selector_value(selectors, cfg.s_witness, row),
                column_sum(cells, cfg.w_helper@, row, cfg.w_helper@.len()),
            );
            assert(witness_part == reduced(witness_term)) by {
                if r < tuples.len() {
                    lemma_column_sum(cfg, alpha, tuples, table_len, r, cfg.width());
                    assert(tuples[row].take(cfg.width() as int) =~= tuples[row]);
                    lemma_field_mul_unit(column_sum(cells, cfg.w_helper@, row, cfg.w_helper@.len()));
                    vstd::arithmetic::div_mod::lemma_mod_twice(witness_term, p);
                } else {
                    lemma_field_mul_zero(column_sum(cells, cfg.w_helper@, row, cfg.w_helper@.len()));
                }
            }
            lemma_step_closes(
                table_part,
                witness_part,
                cell_value(cells, cfg.acc.any(), row),
                cell_value(cells, cfg.acc.any(), row + 1),
                table_term,
                witness_term,
                before,
            );
            assert(step == 0);
            lemma_field_mul_unit(0);
        } else {
            lemma_field_mul_zero(step);
        }
    }

}

/// Where every witness lies in the table, the layout satisfies the
/// boundary condition at every row.
pub proof fn lemma_zero(
    cfg: LogupConfig,
    alpha: nat,
    tuples: Seq<Seq<Option<nat>>>,
    table_len: nat,
    challenges: Map<nat, nat>,
    row: int,
)
    requires
        cfg.wf(),
        cfg.width() >= 1,
        table_len >= 1,
        forall|i: int| 0 <= i < tuples.len() ==> (#[trigger] tuples[i]).len() == cfg.width(),
        challenge_value(challenges, cfg.alpha) == alpha,
        helpers_exist(alpha, tuples, table_len),
        all_below(tuples, table_len),
    ensures
        cfg.zero_identity(
            grid(cfg, Some(alpha), tuples, table_len),
            selector_rows(cfg, tuples, table_len),
            challenges,
            row,
        ) == 0,
{
    let cells = grid(cfg, Some(alpha), tuples, table_len);
    let selectors = selector_rows(cfg, tuples, table_len);
    let rows = row_count(tuples, table_len);
    lemma_modulus_bounds();
    lemma_small_mod(0, modulus());
    lemma_cells(cfg, Some(alpha), tuples, table_len, 0, row);
    assert(cfg.zero_identity(cells, selectors, challenges, row) == 0) by {
        if row == 0 || row == rows {
            lemma_complete(alpha, tuples, table_len);
            lemma_field_mul_unit(0);
        } else {
            lemma_field_mul_zero(field_sub(cell_value(cells, cfg.acc.any(), row), 0));
        }
    }
}

/// Completeness of the constraints: where every buffered component lies in
/// the table and all helpers exist for the challenge `alpha`, every
/// identity that the configuration declared vanishes at every row of the
/// layout.
pub proof fn lemma_declared_identities_vanish<const W: usize, const K: usize>(
    gate: LogupGate<W, K>,
    advice: Seq<u8>,
    fixed: Seq<bool>,
    selectors: Seq<bool>,
    challenge_phases: Seq<u8>,
    gates: Seq<Gate>,
    declared: ConstraintSystem,
    alpha: nat,
    challenges: Map<nat, nat>,
    row: int,
    index: int,
)
    requires
        gate.wf(),
        gate.cfg().declared(advice, fixed, selectors, challenge_phases, gates, declared),
        challenge_value(challenges, gate.cfg().alpha) == alpha,
        helpers_exist(alpha, gate.witnesses(), gate.table_len()),
        all_below(gate.witnesses(), gate.table_len()),
        gates.len() <= index < declared.gates@.len(),
    ensures
        declared.gates@[index].poly.eval(gate.grid(Some(alpha)), gate.selector_rows(), challenges, row) == 0,
{
    gate.lemma_wf();
    vstd::arithmetic::power2::lemma_pow2_pos(gate.bit_size());
    let cfg = gate.cfg();
    lemma_table_helper(cfg, alpha, gate.witnesses(), gate.table_len(), challenges, row);
    lemma_witness_helper(cfg, alpha, gate.witnesses(), gate.table_len(), challenges, row);
    lemma_grand_sum(cfg, alpha, gate.witnesses(), gate.table_len(), challenges, row);
    lemma_zero(cfg, alpha, gate.witnesses(), gate.table_len(), challenges, row);
    let offset = index - gates.len();
    if 1 <= offset <= W {
        let j = offset - 1;
        assert(declared.gates@[gates.len() + 1 + j].poly.eval(
            gate.grid(Some(alpha)),
            gate.selector_rows(),
            challenges,
            row,
        ) == cfg.witness_helper_identity(j, gate.grid(Some(alpha)), gate.selector_rows(), challenges, row));
    }
}

} // verus!
