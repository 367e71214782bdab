//! What the logarithmic-derivative gate declares: its columns, its
//! challenge, its selectors and its polynomial identities.

use crate::field::{field_add, field_mul, field_sub, Scalar};
use crate::plonk::{
    cell_value, challenge_value, selector_value, Challenge, ConstraintSystem, Expression, Gate,
};
use crate::region::{Advice, Any, Column, Fixed, Selector};
use vstd::prelude::*;

verus! {

/// The columns, challenge and selectors of one gate of `w.len()` witness
/// columns.
#[derive(Clone, Debug)]
pub struct LogupConfig {
    /// The witness columns.
    pub w: Vec<Column<Advice>>,
    /// The table column.
    pub t: Column<Fixed>,
    /// `1 / (alpha - t)` for each table row.
    pub t_helper: Column<Advice>,
    /// `1 / (alpha - w)` for each witness column.
    pub w_helper: Vec<Column<Advice>>,
    /// How often each table row's value is witnessed.
    pub m: Column<Advice>,
    /// The running sum.
    pub acc: Column<Advice>,
    /// The challenge, drawn after the witness columns are committed.
    pub alpha: Challenge,
    /// Gates `acc = 0`.
    pub s_zero: Selector,
    /// Gates the step of the running sum.
    pub s_acc: Selector,
    /// Marks the rows that hold a witness tuple.
    pub s_witness: Selector,
    /// Marks the rows that hold a table entry.
    pub s_table: Selector,
}

/// The field sum of the cells of the first `n` of `columns` at `row`.
pub open spec fn column_sum(
    cells: Map<(Column<Any>, nat), Option<nat>>,
    columns: Seq<Column<Advice>>,
    row: int,
    n: nat,
) -> nat
    decreases n,
{
    if n == 0 {
        0
    } else if n == 1 {
        cell_value(cells, columns[0].any(), row)
    } else {
        field_add(
            column_sum(cells, columns, row, (n - 1) as nat),
            cell_value(cells, columns[n - 1].any(), row),
        )
    }
}

impl LogupConfig {
    /// The number of witness columns.
    pub open spec fn width(self) -> nat {
        self.w@.len()
    }

    /// There is a helper column for each witness column, no advice column
    /// and no selector is used twice, and the two row markers are complex
    /// selectors.
    pub open spec fn wf(self) -> bool {
        &&& self.w_helper@.len() == self.w@.len()
        &&& forall|i: int, j: int| 0 <= i < j < self.w@.len() ==> self.w@[i].index != self.w@[j].index
        &&& forall|i: int, j: int|
            0 <= i < j < self.w_helper@.len() ==> self.w_helper@[i].index != self.w_helper@[j].index
        &&& forall|i: int, j: int|
            0 <= i < self.w@.len() && 0 <= j < self.w_helper@.len() ==> self.w@[i].index
                != self.w_helper@[j].index
        &&& forall|i: int|
            0 <= i < self.w@.len() ==> {
                &&& (#[trigger] self.w@[i]).index != self.t_helper.index
                &&& self.w@[i].index != self.m.index
                &&& self.w@[i].index != self.acc.index
            }
        &&& forall|i: int|
            0 <= i < self.w_helper@.len() ==> {
                &&& (#[trigger] self.w_helper@[i]).index != self.t_helper.index
                &&& self.w_helper@[i].index != self.m.index
                &&& self.w_helper@[i].index != self.acc.index
            }
        &&& self.t_helper.index != self.m.index
        &&& self.t_helper.index != self.acc.index
        &&& self.m.index != self.acc.index
        &&& self.s_zero.index != self.s_acc.index
        &&& self.s_zero.index != self.s_witness.index
        &&& self.s_zero.index != self.s_table.index
        &&& self.s_acc.index != self.s_witness.index
        &&& self.s_acc.index != self.s_table.index
        &&& self.s_witness.index != self.s_table.index
        &&& self.s_zero.simple
        &&& self.s_acc.simple
        &&& !self.s_witness.simple
        &&& !self.s_table.simple
    }

    /// Table-helper correctness at `row`: where the table marker is on,
    /// `t_helper * (alpha - t) - 1`.
    pub open spec fn table_helper_identity(
        self,
        cells: Map<(Column<Any>, nat), Option<nat>>,
        selectors: Set<(Selector, nat)>,
        challenges: Map<nat, nat>,
        row: int,
    ) -> nat {
        field_mul(
            selector_value(selectors, self.s_table, row),
            field_sub(
                field_mul(
                    cell_value(cells, self.t_helper.any(), row),
                    field_sub(challenge_value(challenges, self.alpha), cell_value(cells, self.t.any(), row)),
                ),
                1,
            ),
        )
    }

    /// Witness-helper correctness of witness column `i` at `row`: where the
    /// witness marker is on, `w_helper * (alpha - w) - 1`.
    pub open spec fn witness_helper_identity(
        self,
        i: int,
        cells: Map<(Column<Any>, nat), Option<nat>>,
        selectors: Set<(Selector, nat)>,
        challenges: Map<nat, nat>,
        row: int,
    ) -> nat {
        field_mul(
            selector_value(selectors, self.s_witness, row),
            field_sub(
                field_mul(
                    cell_value(cells, self.w_helper@[i].any(), row),
                    field_sub(
                        challenge_value(challenges, self.alpha),
                        cell_value(cells, self.w@[i].any(), row),
                    ),
                ),
                1,
            ),
        )
    }

    /// The step of the running sum at `row`: where the step selector is on,
    /// `s_table * m * t_helper - s_witness * (sum of the witness helpers)
    /// + acc - acc_next`.
    pub open spec fn grand_sum_identity(
        self,
        cells: Map<(Column<Any>, nat), Option<nat>>,
        selectors: Set<(Selector, nat)>,
        challenges: Map<nat, nat>,
        row: int,
    ) -> nat {
        field_mul(
            selector_value(selectors, self.s_acc, row),
            field_sub(
                field_add(
                    field_sub(
                        field_mul(
                            field_mul(
                                selector_value(selectors, self.s_table, row),
                                cell_value(cells, self.m.any(), row),
                            ),
                            cell_value(cells, self.t_helper.any(), row),
                        ),
                        field_mul(
                            selector_value(selectors, self.s_witness, row),
                            column_sum(cells, self.w_helper@, row, self.w_helper@.len()),
                        ),
                    ),
                    cell_value(cells, self.acc.any(), row),
                ),
                cell_value(cells, self.acc.any(), row + 1),
            ),
        )
    }

    /// The boundary condition at `row`: where the zero selector is on,
    /// `acc - 0`.
    pub open spec fn zero_identity(
        self,
        cells: Map<(Column<Any>, nat), Option<nat>>,
        selectors: Set<(Selector, nat)>,
        challenges: Map<nat, nat>,
        row: int,
    ) -> nat {
        field_mul(
            selector_value(selectors, self.s_zero, row),
            field_sub(cell_value(cells, self.acc.any(), row), 0),
        )
    }

    /// What declaring this gate adds to a constraint system that held the
    /// given columns, selectors, challenges and gates before: one fixed
    /// column for the table; second-phase advice columns for the
    /// multiplicity, the table helper, the witness helpers and the running
    /// sum, in this order; one challenge after the first phase; the
    /// selectors zero, step, table marker and witness marker; and the
    /// identities table helper, witness helpers, grand sum and zero.
    pub open spec fn declared(
        self,
        advice: Seq<u8>,
        fixed: Seq<bool>,
        selectors_before: Seq<bool>,
        challenges_before: Seq<u8>,
        gates: Seq<Gate>,
        after: ConstraintSystem,
    ) -> bool {
        &&& self.t.index == fixed.len()
        &&& self.m.index == advice.len()
        &&& self.m.column_type.phase == 1
        &&& self.t_helper.index == advice.len() + 1
        &&& self.t_helper.column_type.phase == 1
        &&& forall|i: int|
            0 <= i < self.w@.len() ==> (#[trigger] self.w_helper@[i]).index == advice.len() + 2 + i
                && self.w_helper@[i].column_type.phase == 1
        &&& self.acc.index == advice.len() + 2 + self.w@.len()
        &&& self.acc.column_type.phase == 1
        &&& self.alpha.index == challenges_before.len()
        &&& self.alpha.phase == 0
        &&& self.s_zero.index == selectors_before.len()
        &&& self.s_acc.index == selectors_before.len() + 1
        &&& self.s_table.index == selectors_before.len() + 2
        &&& self.s_witness.index == selectors_before.len() + 3
        &&& after.advice_phases@ == advice + Seq::new(self.w@.len() + 3, |i: int| 1u8)
        &&& after.fixed_tables@ == fixed.push(false)
        &&& after.selectors@ == selectors_before + seq![true, true, false, false]
        &&& after.challenge_phases@ == challenges_before.push(0u8)
        &&& after.gates@.len() == gates.len() + self.w@.len() + 3
        &&& after.gates@.subrange(0, gates.len() as int) == gates
        &&& after.gates@[gates.len() as int].name == "t-helper"
        &&& forall|i: int|
                0 <= i < self.w@.len() ==> (#[trigger] after.gates@[gates.len() + 1 + i]).name
                    == "w-helper"
        &&& after.gates@[gates.len() + 1 + self.w@.len() as int].name == "grand sum"
        &&& after.gates@[gates.len() + 2 + self.w@.len() as int].name == "zero acc"
        &&& after.gates@[gates.len() as int].poly.degree() == 3
        &&& forall|i: int|
            0 <= i < self.w@.len() ==> (#[trigger] after.gates@[gates.len() + 1 + i]).poly.degree() == 3
        &&& after.gates@[gates.len() + 1 + self.w@.len() as int].poly.degree() == 4
        &&& after.gates@[gates.len() + 2 + self.w@.len() as int].poly.degree() == 2
        &&& forall|cells, selectors, challenges, row| #[trigger]
                after.gates@[gates.len() as int].poly.eval(cells, selectors, challenges, row)
                    == self.table_helper_identity(cells, selectors, challenges, row)
        &&& forall|i: int, cells, selectors, challenges, row|
                0 <= i < self.w@.len() ==> #[trigger] after.gates@[gates.len() + 1 + i].poly.eval(
                    cells,
                    selectors,
                    challenges,
                    row,
                ) == self.witness_helper_identity(i, cells, selectors, challenges, row)
        &&& forall|cells, selectors, challenges, row| #[trigger]
                after.gates@[gates.len() + 1 + self.w@.len() as int].poly.eval(
                    cells,
                    selectors,
                    challenges,
                    row,
                ) == self.grand_sum_identity(cells, selectors, challenges, row)
        &&& forall|cells, selectors, challenges, row| #[trigger]
                after.gates@[gates.len() + 2 + self.w@.len() as int].poly.eval(
                    cells,
                    selectors,
                    challenges,
                    row,
                ) == self.zero_identity(cells, selectors, challenges, row)
    }

    /// Declares this gate over the witness columns `w`: a table column, a
    /// multiplicity column, helper columns and the running sum in the
    /// second phase, the challenge after the first phase, four selectors,
    /// and the identities in the order table helper, witness helper (one
    /// for each witness column), grand sum, zero.
    #[verifier::rlimit(50)]
    pub fn configure(meta: &mut ConstraintSystem, w: Vec<Column<Advice>>) -> (r: LogupConfig)
        requires
            w@.len() >= 1,
            old(meta).phase_exists(0),
            forall|i: int| 0 <= i < w@.len() ==> (#[trigger] w@[i]).index < old(meta).advice_phases@.len(),
            forall|i: int, j: int| 0 <= i < j < w@.len() ==> w@[i].index != w@[j].index,
        ensures
            r.wf(),
            r.w@ == w@,
            r.declared(
                old(meta).advice_phases@,
                old(meta).fixed_tables@,
                old(meta).selectors@,
                old(meta).challenge_phases@,
                old(meta).gates@,
                *final(meta),
            ),
            final(meta).lookups == old(meta).lookups,
    {
        let ghost base = old(meta).advice_phases@;
        let ghost gates = old(meta).gates@;
        let t = meta.fixed_column();
        assert(base.contains(0u8));
        let ghost zero_at = choose|i: int| 0 <= i < base.len() && base[i] == 0u8;
        let m = meta.advice_column_in(1);
        assert(meta.advice_phases@[zero_at] == 0u8);
        let t_helper = meta.advice_column_in(1);
        let mut w_helper: Vec<Column<Advice>> = Vec::new();
        let mut i: usize = 0;
        while i < w.len()
            invariant
                0 <= i <= w@.len(),
                0 <= zero_at < base.len(),
                base[zero_at] == 0u8,
                w_helper@.len() == i,
                meta.advice_phases@ == base + Seq::new((i + 2) as nat, |k: int| 1u8),
                forall|k: int|
                    0 <= k < i ==> (#[trigger] w_helper@[k]).index == base.len() + 2 + k
                        && w_helper@[k].column_type.phase == 1,
                meta.fixed_tables@ == old(meta).fixed_tables@.push(false),
                meta.selectors == old(meta).selectors,
                meta.challenge_phases == old(meta).challenge_phases,
                meta.gates == old(meta).gates,
                meta.lookups == old(meta).lookups,
            decreases w@.len() - i,
        {
            assert(meta.advice_phases@[zero_at] == 0u8);
            let column = meta.advice_column_in(1);
            w_helper.push(column);
            i += 1;
            assert(meta.advice_phases@ =~= base + Seq::new((i + 2) as nat, |k: int| 1u8));
        }
        assert(meta.advice_phases@[zero_at] == 0u8);
        let acc = meta.advice_column_in(1);
        assert(meta.advice_phases@ =~= base + Seq::new(w@.len() + 3, |k: int| 1u8));
        assert(meta.advice_phases@[zero_at] == 0u8);
        let alpha = meta.challenge_usable_after(0);
        let s_zero = meta.selector();
        let s_acc = meta.selector();
        let s_table = meta.complex_selector();
        let s_witness = meta.complex_selector();
        assert(meta.selectors@ =~= old(meta).selectors@ + seq![true, true, false, false]);
        let cfg = LogupConfig { w, t, t_helper, w_helper, m, acc, alpha, s_zero, s_acc, s_witness, s_table };
        assert(cfg.wf());

        let identity = Self::inverse_identity(cfg.t_helper, cfg.alpha, Expression::query_fixed(cfg.t, 0));
        meta.create_gate("t-helper", Expression::query_selector(cfg.s_table), identity);
        let ghost with_table = meta.gates@;

        let mut j: usize = 0;
        while j < cfg.w.len()
            invariant
                0 <= j <= cfg.w@.len(),
                cfg.wf(),
                with_table.len() == gates.len() + 1,
                meta.gates@.len() == with_table.len() + j,
                meta.gates@.subrange(0, with_table.len() as int) == with_table,
                forall|k: int| 0 <= k < j ==> (#[trigger] meta.gates@[with_table.len() + k]).name == "w-helper",
                forall|k: int| 0 <= k < j ==> (#[trigger] meta.gates@[with_table.len() + k]).poly.degree() == 3,
                forall|k: int, cells, selectors, challenges, row|
                    0 <= k < j ==> #[trigger] meta.gates@[with_table.len() + k].poly.eval(
                        cells,
                        selectors,
                        challenges,
                        row,
                    ) == cfg.witness_helper_identity(k, cells, selectors, challenges, row),
                meta.advice_phases@ == base + Seq::new(cfg.w@.len() + 3, |k: int| 1u8),
                meta.fixed_tables@ == old(meta).fixed_tables@.push(false),
                meta.selectors@ == old(meta).selectors@ + seq![true, true, false, false],
                meta.challenge_phases@ == old(meta).challenge_phases@.push(0u8),
                meta.lookups == old(meta).lookups,
            decreases cfg.w@.len() - j,
        {
            let ghost before = meta.gates@;
            let identity = Self::inverse_identity(
                cfg.w_helper[j],
                cfg.alpha,
                Expression::query_advice(cfg.w[j], 0),
            );
            meta.create_gate("w-helper", Expression::query_selector(cfg.s_witness), identity);
            proof {
                assert(meta.gates@.subrange(0, with_table.len() as int) =~= before.subrange(
                    0,
                    with_table.len() as int,
                ));
                assert forall|k: int| 0 <= k < j implies #[trigger] meta.gates@[with_table.len() + k]
                    == before[with_table.len() + k] by {}
            }
            j += 1;
        }
        let ghost with_witness = meta.gates@;

        let contribution = Expression::query_selector(cfg.s_table).times(
            Expression::query_advice(cfg.m, 0),
        ).times(Expression::query_advice(cfg.t_helper, 0)).minus(
            Expression::query_selector(cfg.s_witness).times(Self::sum_of(&cfg.w_helper)),
        );
        let identity = contribution.plus(Expression::query_advice(cfg.acc, 0)).minus(
            Expression::query_advice(cfg.acc, 1),
        );
        meta.create_gate("grand sum", Expression::query_selector(cfg.s_acc), identity);
        let ghost with_sum = meta.gates@;

        let identity = Expression::query_advice(cfg.acc, 0).minus(Expression::constant(Scalar::zero()));
        meta.create_gate("zero acc", Expression::query_selector(cfg.s_zero), identity);
        proof {
            let n = gates.len() as int;
            let width = cfg.w@.len() as int;
            assert(with_table == gates.push(with_table.last()));
            assert(with_witness.subrange(0, n + 1) == with_table);
            assert(meta.gates@.subrange(0, n) =~= gates) by {
                assert forall|k: int| 0 <= k < n implies meta.gates@[k] == gates[k] by {
                    assert(with_witness.subrange(0, n + 1)[k] == with_witness[k]);
                }
            }
            assert(meta.gates@[n] == with_table.last()) by {
                assert(with_witness.subrange(0, n + 1)[n] == with_witness[n]);
            }
            assert forall|k: int| 0 <= k < width implies #[trigger] meta.gates@[n + 1 + k]
                == with_witness[n + 1 + k] by {}
            assert(meta.gates@[n + 1 + width] == with_sum.last());
        }
        cfg
    }

    /// `helper * (alpha - x) - 1`.
    fn inverse_identity(helper: Column<Advice>, alpha: Challenge, x: Expression) -> (r: Expression)
        ensures
            r.degree() == 1 + x.degree(),
            forall|cells, selectors, challenges, row| #[trigger]
                r.eval(cells, selectors, challenges, row) == field_sub(
                    field_mul(
                        cell_value(cells, helper.any(), row),
                        field_sub(
                            challenge_value(challenges, alpha),
                            x.eval(cells, selectors, challenges, row),
                        ),
                    ),
                    1,
                ),
    {
        let helper = Expression::query_advice(helper, 0);
        let alpha = Expression::query_challenge(alpha);
        helper.times(alpha.minus(x)).minus(Expression::constant(Scalar::one()))
    }

    /// The sum of the cells of `columns` at the row.
    fn sum_of(columns: &Vec<Column<Advice>>) -> (r: Expression)
        requires
            columns@.len() >= 1,
        ensures
            r.degree() == 1,
            forall|cells, selectors, challenges, row| #[trigger]
                r.eval(cells, selectors, challenges, row) == column_sum(
                    cells,
                    columns@,
                    row,
                    columns@.len(),
                ),
    {
        let mut sum = Expression::query_advice(columns[0], 0);
        let mut i: usize = 1;
        while i < columns.len()
            invariant
                1 <= i <= columns@.len(),
                sum.degree() == 1,
                forall|cells, selectors, challenges, row| #[trigger]
                    sum.eval(cells, selectors, challenges, row) == column_sum(
                        cells,
                        columns@,
                        row,
                        i as nat,
                    ),
            decreases columns@.len() - i,
        {
            sum = sum.plus(Expression::query_advice(columns[i], 0));
            i += 1;
        }
        sum
    }
}

} // verus!
