//! What this gate assigns, as mathematics: the running sum row by row, the
//! content of every cell, and the rows of every selector.

use crate::field::{field_add, field_inv, field_mul, field_sub};
use crate::witness::occurrences;
use crate::logup::config::LogupConfig;
use crate::region::{Any, AssignedValue, Column, Selector};
use vstd::prelude::*;

verus! {

/// `1 / (alpha - x)`, unknown while `alpha` or `x` is.
pub open spec fn helper(alpha: Option<nat>, x: Option<nat>) -> Option<nat> {
    match (alpha, x) {
        (Some(a), Some(x)) => Some(field_inv(field_sub(a, x))),
        _ => None,
    }
}

/// The field sum of two deferred values.
pub open spec fn deferred_add(a: Option<nat>, b: Option<nat>) -> Option<nat> {
    match (a, b) {
        (Some(a), Some(b)) => Some(field_add(a, b)),
        _ => None,
    }
}

/// The field difference of two deferred values.
pub open spec fn deferred_sub(a: Option<nat>, b: Option<nat>) -> Option<nat> {
    match (a, b) {
        (Some(a), Some(b)) => Some(field_sub(a, b)),
        _ => None,
    }
}

/// The field product of two deferred values.
pub open spec fn deferred_mul(a: Option<nat>, b: Option<nat>) -> Option<nat> {
    match (a, b) {
        (Some(a), Some(b)) => Some(field_mul(a, b)),
        _ => None,
    }
}

/// The number of rows that hold a table entry or a witness tuple: the
/// longer of the two decides.
pub open spec fn row_count(tuples: Seq<Seq<Option<nat>>>, table_len: nat) -> nat {
    if tuples.len() >= table_len {
        tuples.len()
    } else {
        table_len
    }
}

/// The running sum once the table entry of row `i` is folded in: row `i` of
/// the table adds its multiplicity times its helper, a row past the table
/// adds nothing.
pub open spec fn after_table(
    alpha: Option<nat>,
    tuples: Seq<Seq<Option<nat>>>,
    table_len: nat,
    acc: Option<nat>,
    i: nat,
) -> Option<nat> {
    if i < table_len {
        deferred_add(acc, deferred_mul(helper(alpha, Some(i)), Some(occurrences(tuples, i))))
    } else {
        acc
    }
}

/// The running sum once the helpers of the first `j` components of `tuple`
/// are subtracted.
pub open spec fn after_witnesses(alpha: Option<nat>, acc: Option<nat>, tuple: Seq<Option<nat>>, j: nat) -> Option<
    nat,
>
    decreases j,
{
    if j == 0 {
        acc
    } else {
        deferred_sub(after_witnesses(alpha, acc, tuple, (j - 1) as nat), helper(alpha, tuple[j - 1]))
    }
}

/// The running sum on entry to row `i`: zero at the first row, and after a
/// row its table term more and its witness helpers less.
pub open spec fn accumulator(alpha: Option<nat>, tuples: Seq<Seq<Option<nat>>>, table_len: nat, i: nat) -> Option<
    nat,
>
    decreases i,
{
    if i == 0 {
        Some(0)
    } else {
        let row = (i - 1) as nat;
        let acc = after_table(alpha, tuples, table_len, accumulator(alpha, tuples, table_len, row), row);
        if row < tuples.len() {
            after_witnesses(alpha, acc, tuples[row as int], tuples[row as int].len())
        } else {
            acc
        }
    }
}

impl LogupConfig {
    /// The place of a column in the order in which a row is written: the
    /// running sum, the table, its helper, the multiplicity, then each
    /// witness column followed by its helper.
    pub open spec fn slot(self, column: Column<Any>) -> Option<nat> {
        if column == self.acc.any() {
            Some(0)
        } else if column == self.t.any() {
            Some(1)
        } else if column == self.t_helper.any() {
            Some(2)
        } else if column == self.m.any() {
            Some(3)
        } else if exists|j: int| 0 <= j < self.w@.len() && column == (#[trigger] self.w@[j]).any() {
            let j = choose|j: int| 0 <= j < self.w@.len() && column == (#[trigger] self.w@[j]).any();
            Some((4 + 2 * j) as nat)
        } else if exists|j: int| 0 <= j < self.w_helper@.len() && column == (#[trigger] self.w_helper@[j]).any() {
            let j = choose|j: int| 0 <= j < self.w_helper@.len() && column == (#[trigger] self.w_helper@[j]).any();
            Some((5 + 2 * j) as nat)
        } else {
            None
        }
    }

    /// The column at a place of the writing order.
    pub open spec fn column_at(self, s: nat) -> Column<Any> {
        if s == 0 {
            self.acc.any()
        } else if s == 1 {
            self.t.any()
        } else if s == 2 {
            self.t_helper.any()
        } else if s == 3 {
            self.m.any()
        } else if s % 2 == 0 {
            self.w@[(s - 4) / 2].any()
        } else {
            self.w_helper@[(s - 5) / 2].any()
        }
    }

    /// A column with a place is the column at that place.
    pub proof fn lemma_slot_column(self, column: Column<Any>)
        requires
            self.wf(),
            self.slot(column) is Some,
        ensures
            self.column_at(self.slot(column).unwrap()) == column,
            self.slot(column).unwrap() < 4 + 2 * self.width(),
    {
    }

    /// Each column of a well-formed configuration has its own place.
    pub proof fn lemma_column_slot(self, s: nat)
        requires
            self.wf(),
            s < 4 + 2 * self.width(),
        ensures
            self.slot(self.column_at(s)) == Some(s),
    {
        if s >= 4 {
            if s % 2 == 0 {
                let j = (s - 4) / 2;
                assert(self.w@[j].any() == self.column_at(s));
            } else {
                let j = (s - 5) / 2;
                assert(self.w_helper@[j].any() == self.column_at(s));
                assert forall|k: int| 0 <= k < self.w@.len() implies (#[trigger] self.w@[k]).any()
                    != self.column_at(s) by {}
            }
        } else {
            assert forall|k: int| 0 <= k < self.w@.len() implies (#[trigger] self.w@[k]).any()
                != self.column_at(s) by {}
            assert forall|k: int| 0 <= k < self.w_helper@.len() implies (#[trigger] self.w_helper@[k]).any()
                != self.column_at(s) by {}
        }
    }
}

/// What this gate assigns to a cell: `None` where it assigns nothing.
///
/// The running-sum column holds the sum on entry to each row, and one row
/// more for the final sum.  A row of the table holds the entry, its helper
/// and its multiplicity; a row past the table holds zero for helper and
/// multiplicity.  A row with a witness tuple holds each component and its
/// helper; a row past the tuples holds zeros.
pub open spec fn expected_cell(
    cfg: LogupConfig,
    alpha: Option<nat>,
    tuples: Seq<Seq<Option<nat>>>,
    table_len: nat,
    column: Column<Any>,
    row: nat,
) -> Option<Option<nat>> {
    let rows = row_count(tuples, table_len);
    match cfg.slot(column) {
        None => None,
        Some(s) => if s == 0 {
            if row <= rows {
                Some(accumulator(alpha, tuples, table_len, row))
            } else {
                None
            }
        } else if row >= rows {
            None
        } else if s == 1 {
            if row < table_len {
                Some(Some(row))
            } else {
                None
            }
        } else if s == 2 {
            Some(
                if row < table_len {
                    helper(alpha, Some(row))
                } else {
                    Some(0nat)
                },
            )
        } else if s == 3 {
            Some(
                Some(
                    if row < table_len {
                        occurrences(tuples, row)
                    } else {
                        0nat
                    },
                ),
            )
        } else if s % 2 == 0 {
            Some(
                if row < tuples.len() {
                    tuples[row as int][(s - 4) / 2]
                } else {
                    Some(0nat)
                },
            )
        } else {
            Some(
                if row < tuples.len() {
                    helper(alpha, tuples[row as int][(s - 5) / 2])
                } else {
                    Some(0nat)
                },
            )
        },
    }
}

/// Every cell that this gate assigns, with the field element in it.
pub open spec fn grid(cfg: LogupConfig, alpha: Option<nat>, tuples: Seq<Seq<Option<nat>>>, table_len: nat) -> Map<
    (Column<Any>, nat),
    Option<nat>,
> {
    Map::new(
        |k: (Column<Any>, nat)| expected_cell(cfg, alpha, tuples, table_len, k.0, k.1) is Some,
        |k: (Column<Any>, nat)| expected_cell(cfg, alpha, tuples, table_len, k.0, k.1).unwrap(),
    )
}

/// The cells of the rows before `i`, and of row `i` the columns before
/// place `s`.
pub open spec fn grid_until(
    cfg: LogupConfig,
    alpha: Option<nat>,
    tuples: Seq<Seq<Option<nat>>>,
    table_len: nat,
    i: nat,
    s: nat,
) -> Map<(Column<Any>, nat), Option<nat>> {
    Map::new(
        |k: (Column<Any>, nat)|
            expected_cell(cfg, alpha, tuples, table_len, k.0, k.1) is Some && (k.1 < i || (k.1 == i
                && cfg.slot(k.0).unwrap() < s)),
        |k: (Column<Any>, nat)| expected_cell(cfg, alpha, tuples, table_len, k.0, k.1).unwrap(),
    )
}

/// Before anything is written the grid is empty.
pub proof fn lemma_grid_start(cfg: LogupConfig, alpha: Option<nat>, tuples: Seq<Seq<Option<nat>>>, table_len: nat)
    ensures
        grid_until(cfg, alpha, tuples, table_len, 0, 0) == Map::<(Column<Any>, nat), Option<nat>>::empty(),
{
    assert(grid_until(cfg, alpha, tuples, table_len, 0, 0) =~= Map::<(Column<Any>, nat), Option<nat>>::empty());
}

/// Writing the cell at place `s` of row `i` moves the grid one place on.
#[verifier::rlimit(50)]
pub proof fn lemma_grid_write(
    cfg: LogupConfig,
    alpha: Option<nat>,
    tuples: Seq<Seq<Option<nat>>>,
    table_len: nat,
    i: nat,
    s: nat,
    value: Option<nat>,
)
    requires
        cfg.wf(),
        s < 4 + 2 * cfg.width(),
        expected_cell(cfg, alpha, tuples, table_len, cfg.column_at(s), i) == Some(value),
    ensures
        grid_until(cfg, alpha, tuples, table_len, i, s).insert((cfg.column_at(s), i), value) == grid_until(
            cfg,
            alpha,
            tuples,
            table_len,
            i,
            s + 1,
        ),
{
    cfg.lemma_column_slot(s);
    let a = grid_until(cfg, alpha, tuples, table_len, i, s).insert((cfg.column_at(s), i), value);
    let b = grid_until(cfg, alpha, tuples, table_len, i, s + 1);
    assert forall|k: (Column<Any>, nat)| a.contains_key(k) <==> b.contains_key(k) by {
        if expected_cell(cfg, alpha, tuples, table_len, k.0, k.1) is Some {
            cfg.lemma_slot_column(k.0);
        }
    }
    assert(a =~= b);
}

/// Where this gate assigns nothing at place `s` of row `i`, the grid is
/// already one place on.
#[verifier::rlimit(50)]
pub proof fn lemma_grid_skip(
    cfg: LogupConfig,
    alpha: Option<nat>,
    tuples: Seq<Seq<Option<nat>>>,
    table_len: nat,
    i: nat,
    s: nat,
)
    requires
        cfg.wf(),
        s < 4 + 2 * cfg.width(),
        expected_cell(cfg, alpha, tuples, table_len, cfg.column_at(s), i) is None,
    ensures
        grid_until(cfg, alpha, tuples, table_len, i, s) == grid_until(cfg, alpha, tuples, table_len, i, s + 1),
{
    let a = grid_until(cfg, alpha, tuples, table_len, i, s);
    let b = grid_until(cfg, alpha, tuples, table_len, i, s + 1);
    assert forall|k: (Column<Any>, nat)| a.contains_key(k) <==> b.contains_key(k) by {
        if expected_cell(cfg, alpha, tuples, table_len, k.0, k.1) is Some {
            cfg.lemma_slot_column(k.0);
        }
    }
    assert(a =~= b);
}

/// A row is complete once its last column is written.
#[verifier::rlimit(50)]
pub proof fn lemma_grid_next_row(
    cfg: LogupConfig,
    alpha: Option<nat>,
    tuples: Seq<Seq<Option<nat>>>,
    table_len: nat,
    i: nat,
)
    requires
        cfg.wf(),
    ensures
        grid_until(cfg, alpha, tuples, table_len, i, 4 + 2 * cfg.width()) == grid_until(
            cfg,
            alpha,
            tuples,
            table_len,
            i + 1,
            0,
        ),
{
    let a = grid_until(cfg, alpha, tuples, table_len, i, 4 + 2 * cfg.width());
    let b = grid_until(cfg, alpha, tuples, table_len, i + 1, 0);
    assert forall|k: (Column<Any>, nat)| a.contains_key(k) <==> b.contains_key(k) by {
        if expected_cell(cfg, alpha, tuples, table_len, k.0, k.1) is Some {
            cfg.lemma_slot_column(k.0);
        }
    }
    assert(a =~= b);
}

/// The grid is complete once the final sum is written below the last row.
#[verifier::rlimit(50)]
pub proof fn lemma_grid_complete(
    cfg: LogupConfig,
    alpha: Option<nat>,
    tuples: Seq<Seq<Option<nat>>>,
    table_len: nat,
)
    requires
        cfg.wf(),
    ensures
        grid_until(cfg, alpha, tuples, table_len, row_count(tuples, table_len), 1) == grid(
            cfg,
            alpha,
            tuples,
            table_len,
        ),
{
    assert(grid_until(cfg, alpha, tuples, table_len, row_count(tuples, table_len), 1) =~= grid(
        cfg,
        alpha,
        tuples,
        table_len,
    ));
}

/// Whether this gate enables `selector` at `row`: the zero selector at the
/// first row and below the last one, the step selector at every row, the
/// table marker at the rows of the table, the witness marker at the rows
/// with a witness tuple.
pub open spec fn selector_on(
    cfg: LogupConfig,
    tuples: Seq<Seq<Option<nat>>>,
    table_len: nat,
    selector: Selector,
    row: nat,
) -> bool {
    ||| selector == cfg.s_zero && (row == 0 || row == row_count(tuples, table_len))
    ||| selector == cfg.s_acc && row < row_count(tuples, table_len)
    ||| selector == cfg.s_table && row < table_len
    ||| selector == cfg.s_witness && row < tuples.len()
}

/// Every (selector, row) that this gate enables.
pub open spec fn selector_rows(cfg: LogupConfig, tuples: Seq<Seq<Option<nat>>>, table_len: nat) -> Set<
    (Selector, nat),
> {
    Set::new(|p: (Selector, nat)| selector_on(cfg, tuples, table_len, p.0, p.1))
}

/// The selectors of the rows before `i`, of row `i` the first `s` of step
/// selector, table marker and witness marker, and the zero selector at the
/// first row.
pub open spec fn selector_rows_until(
    cfg: LogupConfig,
    tuples: Seq<Seq<Option<nat>>>,
    table_len: nat,
    i: nat,
    s: nat,
) -> Set<(Selector, nat)> {
    Set::new(
        |p: (Selector, nat)|
            selector_on(cfg, tuples, table_len, p.0, p.1) && if p.0 == cfg.s_zero {
                p.1 == 0
            } else {
                p.1 < i || (p.1 == i && ((p.0 == cfg.s_acc && s >= 1) || (p.0 == cfg.s_table && s >= 2) || (p.0
                    == cfg.s_witness && s >= 3)))
            },
    )
}

/// Whether a write keeps what it should of a helper: where the challenge
/// and the inverted value are known, a helper is written as the unreduced
/// fraction `1 / (alpha - x)`, so that the prover can invert all helpers in
/// one batch.
pub open spec fn keeps_fraction(
    cfg: LogupConfig,
    alpha: Option<nat>,
    tuples: Seq<Seq<Option<nat>>>,
    table_len: nat,
    write: AssignedValue,
) -> bool {
    let row = write.cell.row_offset as int;
    match (cfg.slot(write.cell.column), alpha) {
        (Some(s), Some(a)) => if s == 2 && row < table_len {
            write.value matches Some(f) && f.numerator@ == 1 && f.denominator@ == field_sub(a, row as nat)
        } else if s >= 5 && s % 2 == 1 && row < tuples.len() && tuples[row][(s - 5) / 2] is Some {
            write.value matches Some(f) && f.numerator@ == 1 && f.denominator@ == field_sub(
                a,
                tuples[row][(s - 5) / 2].unwrap(),
            )
        } else {
            true
        },
        _ => true,
    }
}

/// Every helper among the writes is kept as an unreduced fraction.
pub open spec fn helpers_unreduced(
    cfg: LogupConfig,
    alpha: Option<nat>,
    tuples: Seq<Seq<Option<nat>>>,
    table_len: nat,
    writes: Seq<AssignedValue>,
) -> bool {
    forall|k: int| 0 <= k < writes.len() ==> keeps_fraction(cfg, alpha, tuples, table_len, #[trigger] writes[k])
}

} // verus!
