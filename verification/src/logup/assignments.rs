//! The logarithmic-derivative gate itself: it buffers witness tuples,
//! counts how often each value occurs, and lays out the table, the
//! witnesses, the helper columns and the running sum.

use crate::field::{field_sub, lemma_modulus_bounds, modulus, Scalar};
use crate::logup::config::LogupConfig;
use crate::logup::grid::{
    accumulator, after_table, after_witnesses, grid, grid_until, helper, helpers_unreduced, lemma_grid_complete,
    lemma_grid_next_row, lemma_grid_skip, lemma_grid_start, lemma_grid_write, row_count, selector_rows,
    selector_rows_until,
};
use crate::multiplicity::Multiplicities;
use crate::plonk::ConstraintSystem;
use crate::rational::{deferred_value, Rational};
use crate::region::{Advice, Any, Cell, Column, Region, RegionCtx, Selector};
use crate::witness::{
    deferred_scalar, lemma_occurrences_bound, lemma_occurrences_in_bound, occurrences, occurrences_in, values_of,
};
use vstd::arithmetic::power2::{lemma_pow2_strictly_increases, lemma_pow2_unfold, pow2};
use vstd::prelude::*;

verus! {

/// Why a layout is refused.
#[derive(Clone, Copy, Debug, PartialEq, Eq)]
pub enum LayoutError {
    /// The running sum is known and did not return to zero: some witness
    /// is not in the table.
    Unbalanced,
}

/// A gate over `W` witness columns for a circuit of `2^K` rows.
#[derive(Clone, Debug)]
pub struct LogupGate<const W: usize, const K: usize> {
    cfg: LogupConfig,
    bit_size: usize,
    multiplicities: Multiplicities,
    witnesses: Vec<[Option<Scalar>; W]>,
}

impl<const W: usize, const K: usize> LogupGate<W, K> {
    /// What this gate declared.
    pub closed spec fn cfg(self) -> LogupConfig {
        self.cfg
    }

    /// The table is `{0, .., 2^bit_size - 1}`.
    pub closed spec fn bit_size(self) -> nat {
        self.bit_size as nat
    }

    /// The buffered witness tuples, in the order of the lookups.
    pub closed spec fn witnesses(self) -> Seq<Seq<Option<nat>>> {
        self.witnesses@.map_values(|t: [Option<Scalar>; W]| values_of(t@))
    }

    /// The count that this gate keeps for the field element `v`.
    pub closed spec fn multiplicity(self, v: nat) -> nat {
        self.multiplicities.count(v)
    }

    /// The configuration is well formed and has `W` witness columns, the
    /// table has fewer than `2^K` rows, and the count of every field
    /// element is the number of buffered components that are known to be
    /// it.
    pub closed spec fn wf(self) -> bool {
        &&& self.cfg.wf()
        &&& self.cfg.width() == W
        &&& W >= 1
        &&& self.bit_size() < K
        &&& pow2(self.bit_size()) <= usize::MAX
        &&& forall|i: int| 0 <= i < self.witnesses().len() ==> (#[trigger] self.witnesses()[i]).len() == W
        &&& forall|v: nat| v < modulus() ==> self.multiplicity(v) == occurrences(self.witnesses(), v)
    }

    /// Declares a gate for the table `{0, .., 2^bit_size - 1}`: `W`
    /// first-phase witness columns, then what the configuration declares
    /// over them.  The table must fit in a circuit of `2^K` rows.
    pub fn configure(meta: &mut ConstraintSystem, bit_size: usize) -> (r: Self)
        requires
            W >= 1,
            bit_size < K,
            pow2(bit_size as nat) <= usize::MAX,
        ensures
            r.wf(),
            r.bit_size() == bit_size,
            r.witnesses() == Seq::<Seq<Option<nat>>>::empty(),
            forall|v: nat| r.multiplicity(v) == 0,
            forall|i: int|
                0 <= i < W ==> (#[trigger] r.cfg().w@[i]).index == old(meta).advice_phases@.len() + i
                    && r.cfg().w@[i].column_type.phase == 0,
            r.cfg().declared(
                old(meta).advice_phases@ + Seq::new(W as nat, |i: int| 0u8),
                old(meta).fixed_tables@,
                old(meta).selectors@,
                old(meta).challenge_phases@,
                old(meta).gates@,
                *final(meta),
            ),
            final(meta).lookups == old(meta).lookups,
    {
        let ghost base = old(meta).advice_phases@;
        let mut w: Vec<Column<Advice>> = Vec::new();
        let mut i: usize = 0;
        while i < W
            invariant
                0 <= i <= W,
                w@.len() == i,
                meta.advice_phases@ == base + Seq::new(i as nat, |k: int| 0u8),
                forall|k: int|
                    0 <= k < i ==> (#[trigger] w@[k]).index == base.len() + k && w@[k].column_type.phase
                        == 0,
                meta.fixed_tables == old(meta).fixed_tables,
                meta.selectors == old(meta).selectors,
                meta.challenge_phases == old(meta).challenge_phases,
                meta.gates == old(meta).gates,
                meta.lookups == old(meta).lookups,
            decreases W - i,
        {
            let column = meta.advice_column();
            w.push(column);
            i += 1;
            assert(meta.advice_phases@ =~= base + Seq::new(i as nat, |k: int| 0u8));
        }
        assert(meta.advice_phases@[base.len() as int] == 0u8);
        let cfg = LogupConfig::configure(meta, w);
        let gate = LogupGate { cfg, bit_size, multiplicities: Multiplicities::new(), witnesses: Vec::new() };
        assert(gate.witnesses() =~= Seq::<Seq<Option<nat>>>::empty());
        gate
    }

    /// What this gate declared.
    pub fn config(&self) -> (r: &LogupConfig)
        ensures
            *r == self.cfg(),
    {
        &self.cfg
    }

    /// The number of buffered tuples.
    pub fn len(&self) -> (r: usize)
        ensures
            r == self.witnesses().len(),
    {
        self.witnesses.len()
    }

    /// What holds of every well-formed gate.
    pub proof fn lemma_wf(self)
        requires
            self.wf(),
        ensures
            self.cfg().wf(),
            self.cfg().width() == W,
            W >= 1,
            self.bit_size() < K,
            pow2(self.bit_size()) <= usize::MAX,
            forall|i: int| 0 <= i < self.witnesses().len() ==> (#[trigger] self.witnesses()[i]).len() == W,
            forall|v: nat| v < modulus() ==> self.multiplicity(v) == occurrences(self.witnesses(), v),
    {
    }

    /// Buffers one tuple of `W` witness values, and counts each component
    /// whose value is known.
    #[verifier::rlimit(50)]
    pub fn lookup(&mut self, value: &[Option<Scalar>; W])
        requires
            old(self).wf(),
            (old(self).witnesses().len() + 1) * W <= usize::MAX,
        ensures
            final(self).wf(),
            final(self).cfg() == old(self).cfg(),
            final(self).bit_size() == old(self).bit_size(),
            final(self).witnesses() == old(self).witnesses().push(values_of(value@)),
            forall|v: nat|
                v < modulus() ==> final(self).multiplicity(v) == old(self).multiplicity(v) + occurrences_in(
                    values_of(value@),
                    v,
                ),
    {
        let ghost tuple = values_of(value@);
        let ghost before = self.witnesses();
        self.witnesses.push(*value);
        assert(self.witnesses() =~= before.push(tuple));
        assert(tuple.take(0).len() == 0);
        assert forall|v: nat| v < modulus() implies self.multiplicities.count(v) == occurrences(before, v)
            + occurrences_in(tuple.take(0), v) by {
            assert(old(self).multiplicity(v) == occurrences(before, v));
        }
        let mut j: usize = 0;
        while j < W
            invariant
                0 <= j <= W,
                tuple == values_of(value@),
                tuple.len() == W,
                before == old(self).witnesses(),
                old(self).wf(),
                (before.len() + 1) * W <= usize::MAX,
                self.cfg == old(self).cfg,
                self.bit_size == old(self).bit_size,
                self.witnesses() == before.push(tuple),
                forall|v: nat|
                    v < modulus() ==> self.multiplicities.count(v) == occurrences(before, v) + occurrences_in(
                        tuple.take(j as int),
                        v,
                    ),
            decreases W - j,
        {
            proof {
                assert(tuple.take(j + 1).drop_last() =~= tuple.take(j as int));
            }
            match value[j] {
                Some(x) => {
                    proof {
                        use_type_invariant(&x);
                        lemma_occurrences_bound(before, W as nat, x@);
                        lemma_occurrences_in_bound(tuple.take(j as int), x@);
                        assert(before.len() * W + W == (before.len() + 1) * W) by (nonlinear_arith);
                    }
                    self.multiplicities.record(&x);
                },
                None => {},
            }
            j += 1;
        }
        proof {
            assert(tuple.take(W as int) =~= tuple);
            assert(self.witnesses().drop_last() =~= before);
        }
    }

    /// The number of table entries, `2^bit_size`.
    pub open spec fn table_len(self) -> nat {
        pow2(self.bit_size())
    }

    /// The number of rows that hold a table entry or a witness tuple.
    pub open spec fn rows(self) -> nat {
        row_count(self.witnesses(), self.table_len())
    }

    /// The running sum on entry to row `i`, for the challenge `alpha`.
    pub open spec fn accumulator(self, alpha: Option<nat>, i: nat) -> Option<nat> {
        accumulator(alpha, self.witnesses(), self.table_len(), i)
    }

    /// The running sum below the last row is known and is not zero.
    pub open spec fn unbalanced(self, alpha: Option<nat>) -> bool {
        self.accumulator(alpha, self.rows()) matches Some(v) && v != 0
    }

    /// Every cell that this gate assigns for the challenge `alpha`.
    pub open spec fn grid(self, alpha: Option<nat>) -> Map<(Column<Any>, nat), Option<nat>> {
        grid(self.cfg(), alpha, self.witnesses(), self.table_len())
    }

    /// Every (selector, row) that this gate enables.
    pub open spec fn selector_rows(self) -> Set<(Selector, nat)> {
        selector_rows(self.cfg(), self.witnesses(), self.table_len())
    }

    fn table_size(&self) -> (r: usize)
        requires
            self.wf(),
        ensures
            r == self.table_len(),
    {
        let mut r: usize = 1;
        let mut k: usize = 0;
        proof {
            lemma_pow2_unfold(1);
            vstd::arithmetic::power2::lemma2_to64();
        }
        while k < self.bit_size
            invariant
                k <= self.bit_size,
                r == pow2(k as nat),
                pow2(self.bit_size as nat) <= usize::MAX,
            decreases self.bit_size - k,
        {
            proof {
                lemma_pow2_unfold((k + 1) as nat);
                if k + 1 < self.bit_size {
                    lemma_pow2_strictly_increases((k + 1) as nat, self.bit_size as nat);
                }
            }
            r = r * 2;
            k += 1;
        }
        r
    }

    /// `1 / (alpha - x)`, once both are known.
    fn helper_of(alpha: &Option<Scalar>, x: &Option<Scalar>) -> (r: Option<Rational>)
        ensures
            deferred_value(r) == helper(deferred_scalar(*alpha), deferred_scalar(*x)),
            (*alpha is Some && *x is Some) ==> (r matches Some(f) && f.numerator@ == 1 && f.denominator@
                == field_sub(alpha.unwrap()@, x.unwrap()@)),
    {
        match alpha {
            Some(a) => match x {
                Some(x) => Some(Rational::inverse_of(a.minus(x))),
                None => None,
            },
            None => None,
        }
    }

    /// The table half of the row at the cursor: the entry, its helper and
    /// its multiplicity, or zeros past the table.  Returns the running sum
    /// with the row's table term added.
    #[verifier::rlimit(50)]
    fn assign_table(&self, ctx: &mut RegionCtx, alpha: &Option<Scalar>, acc: Option<Rational>, table_len: usize) -> (r:
        Option<Rational>)
        requires
            self.wf(),
            table_len == self.table_len(),
            old(ctx).offset < self.rows(),
            old(ctx).region.cells() == grid_until(
                self.cfg(),
                deferred_scalar(*alpha),
                self.witnesses(),
                self.table_len(),
                old(ctx).offset as nat,
                1,
            ),
            old(ctx).region.selectors() == selector_rows_until(
                self.cfg(),
                self.witnesses(),
                self.table_len(),
                old(ctx).offset as nat,
                1,
            ),
            helpers_unreduced(
                self.cfg(),
                deferred_scalar(*alpha),
                self.witnesses(),
                self.table_len(),
                old(ctx).region.assignments@,
            ),
            deferred_value(acc) == self.accumulator(deferred_scalar(*alpha), old(ctx).offset as nat),
        ensures
            final(ctx).offset == old(ctx).offset,
            final(ctx).region.cells() == grid_until(
                self.cfg(),
                deferred_scalar(*alpha),
                self.witnesses(),
                self.table_len(),
                old(ctx).offset as nat,
                4,
            ),
            final(ctx).region.selectors() == selector_rows_until(
                self.cfg(),
                self.witnesses(),
                self.table_len(),
                old(ctx).offset as nat,
                2,
            ),
            final(ctx).region.copies() == old(ctx).region.copies(),
            helpers_unreduced(
                self.cfg(),
                deferred_scalar(*alpha),
                self.witnesses(),
                self.table_len(),
                final(ctx).region.assignments@,
            ),
            deferred_value(r) == after_table(
                deferred_scalar(*alpha),
                self.witnesses(),
                self.table_len(),
                self.accumulator(deferred_scalar(*alpha), old(ctx).offset as nat),
                old(ctx).offset as nat,
            ),
    {
        let i = ctx.offset();
        let ghost a = deferred_scalar(*alpha);
        let ghost tuples = self.witnesses();
        let ghost len = self.table_len();
        let ghost row = i as nat;
        proof {
            self.cfg.lemma_column_slot(1);
            self.cfg.lemma_column_slot(2);
            self.cfg.lemma_column_slot(3);
        }
        if i < table_len {
            ctx.enable(self.cfg.s_table);
            assert(ctx.region.selectors() =~= selector_rows_until(self.cfg, tuples, len, row, 2));
            let t = Scalar::from_u64(i as u64);
            let h = Self::helper_of(alpha, &Some(t));
            let count = self.multiplicities.get(&t);
            proof {
                lemma_modulus_bounds();
                assert(t@ == row && row < modulus());
                assert(self.multiplicity(row) == occurrences(tuples, row));
                assert(count == occurrences(tuples, row));
            }
            let m = Rational::from_scalar(Scalar::from_u64(count as u64));
            assert(m@ == occurrences(tuples, row));
            ctx.fixed(self.cfg.t, t);
            proof {
                lemma_grid_write(self.cfg, a, tuples, len, row, 1, Some(row));
            }
            ctx.advice(self.cfg.t_helper, h);
            proof {
                lemma_grid_write(self.cfg, a, tuples, len, row, 2, helper(a, Some(row)));
            }
            ctx.advice(self.cfg.m, Some(m));
            proof {
                lemma_grid_write(self.cfg, a, tuples, len, row, 3, Some(occurrences(tuples, row)));
            }
            let term = match h {
                Some(h) => Some(h.times(&m)),
                None => None,
            };
            match acc {
                Some(acc) => match term {
                    Some(term) => Some(acc.plus(&term)),
                    None => None,
                },
                None => None,
            }
        } else {
            assert(ctx.region.selectors() =~= selector_rows_until(self.cfg, tuples, len, row, 2));
            proof {
                lemma_grid_skip(self.cfg, a, tuples, len, row, 1);
            }
            ctx.empty(self.cfg.t_helper.to_any());
            proof {
                lemma_grid_write(self.cfg, a, tuples, len, row, 2, Some(0nat));
            }
            ctx.empty(self.cfg.m.to_any());
            proof {
                lemma_grid_write(self.cfg, a, tuples, len, row, 3, Some(0nat));
            }
            acc
        }
    }

    /// The witness half of the row at the cursor: each component of the
    /// row's tuple and its helper, or zeros past the tuples.  Returns the
    /// running sum with the helpers subtracted.
    #[verifier::rlimit(50)]
    fn assign_witness(&self, ctx: &mut RegionCtx, alpha: &Option<Scalar>, acc: Option<Rational>) -> (r: Option<
        Rational,
    >)
        requires
            self.wf(),
            old(ctx).offset < self.rows(),
            old(ctx).region.cells() == grid_until(
                self.cfg(),
                deferred_scalar(*alpha),
                self.witnesses(),
                self.table_len(),
                old(ctx).offset as nat,
                4,
            ),
            old(ctx).region.selectors() == selector_rows_until(
                self.cfg(),
                self.witnesses(),
                self.table_len(),
                old(ctx).offset as nat,
                2,
            ),
            helpers_unreduced(
                self.cfg(),
                deferred_scalar(*alpha),
                self.witnesses(),
                self.table_len(),
                old(ctx).region.assignments@,
            ),
            deferred_value(acc) == after_table(
                deferred_scalar(*alpha),
                self.witnesses(),
                self.table_len(),
                self.accumulator(deferred_scalar(*alpha), old(ctx).offset as nat),
                old(ctx).offset as nat,
            ),
        ensures
            final(ctx).offset == old(ctx).offset,
            final(ctx).region.cells() == grid_until(
                self.cfg(),
                deferred_scalar(*alpha),
                self.witnesses(),
                self.table_len(),
                (old(ctx).offset + 1) as nat,
                0,
            ),
            final(ctx).region.selectors() == selector_rows_until(
                self.cfg(),
                self.witnesses(),
                self.table_len(),
                (old(ctx).offset + 1) as nat,
                0,
            ),
            final(ctx).region.copies() == old(ctx).region.copies(),
            helpers_unreduced(
                self.cfg(),
                deferred_scalar(*alpha),
                self.witnesses(),
                self.table_len(),
                final(ctx).region.assignments@,
            ),
            deferred_value(r) == self.accumulator(deferred_scalar(*alpha), (old(ctx).offset + 1) as nat),
    {
        let i = ctx.offset();
        let ghost a = deferred_scalar(*alpha);
        let ghost tuples = self.witnesses();
        let ghost len = self.table_len();
        let ghost row = i as nat;
        let ghost start = deferred_value(acc);
        let mut acc = acc;
        let mut j: usize = 0;
        if i < self.witnesses.len() {
            ctx.enable(self.cfg.s_witness);
            assert(ctx.region.selectors() =~= selector_rows_until(self.cfg, tuples, len, row + 1, 0));
            let ghost tuple = tuples[i as int];
            while j < W
                invariant
                    0 <= j <= W,
                    self.wf(),
                    i < self.witnesses@.len(),
                    row == i,
                    a == deferred_scalar(*alpha),
                    tuples == self.witnesses(),
                    len == self.table_len(),
                    tuple == tuples[i as int],
                    ctx.offset == i,
                    ctx.region.cells() == grid_until(self.cfg, a, tuples, len, row, (4 + 2 * j) as nat),
                    ctx.region.selectors() == selector_rows_until(self.cfg, tuples, len, row + 1, 0),
                    ctx.region.copies() == old(ctx).region.copies(),
                    helpers_unreduced(self.cfg, a, tuples, len, ctx.region.assignments@),
                    deferred_value(acc) == after_witnesses(a, start, tuple, j as nat),
                decreases W - j,
            {
                let w = self.witnesses[i][j];
                let h = Self::helper_of(alpha, &w);
                let value = match w {
                    Some(x) => Some(Rational::from_scalar(x)),
                    None => None,
                };
                proof {
                    self.cfg.lemma_column_slot((4 + 2 * j) as nat);
                    self.cfg.lemma_column_slot((5 + 2 * j) as nat);
                    assert(tuple[j as int] == deferred_scalar(w));
                }
                ctx.advice(self.cfg.w[j], value);
                proof {
                    lemma_grid_write(self.cfg, a, tuples, len, row, (4 + 2 * j) as nat, tuple[j as int]);
                }
                ctx.advice(self.cfg.w_helper[j], h);
                proof {
                    lemma_grid_write(self.cfg, a, tuples, len, row, (5 + 2 * j) as nat, helper(a, tuple[j as int]));
                }
                acc = match acc {
                    Some(acc) => match h {
                        Some(h) => Some(acc.minus(&h)),
                        None => None,
                    },
                    None => None,
                };
                j += 1;
            }
        } else {
            assert(ctx.region.selectors() =~= selector_rows_until(self.cfg, tuples, len, row + 1, 0));
            while j < W
                invariant
                    0 <= j <= W,
                    self.wf(),
                    i >= self.witnesses@.len(),
                    i < self.rows(),
                    row == i,
                    a == deferred_scalar(*alpha),
                    tuples == self.witnesses(),
                    len == self.table_len(),
                    ctx.offset == i,
                    ctx.region.cells() == grid_until(self.cfg, a, tuples, len, row, (4 + 2 * j) as nat),
                    ctx.region.selectors() == selector_rows_until(self.cfg, tuples, len, row + 1, 0),
                    ctx.region.copies() == old(ctx).region.copies(),
                    helpers_unreduced(self.cfg, a, tuples, len, ctx.region.assignments@),
                decreases W - j,
            {
                proof {
                    self.cfg.lemma_column_slot((4 + 2 * j) as nat);
                    self.cfg.lemma_column_slot((5 + 2 * j) as nat);
                }
                ctx.empty(self.cfg.w[j].to_any());
                proof {
                    lemma_grid_write(self.cfg, a, tuples, len, row, (4 + 2 * j) as nat, Some(0nat));
                }
                ctx.empty(self.cfg.w_helper[j].to_any());
                proof {
                    lemma_grid_write(self.cfg, a, tuples, len, row, (5 + 2 * j) as nat, Some(0nat));
                }
                j += 1;
            }
        }
        proof {
            lemma_grid_next_row(self.cfg, a, tuples, len, row);
        }
        acc
    }

    /// Assigns the whole region for the challenge `alpha`, and returns it
    /// with the final running sum.
    ///
    /// Row `i` holds the running sum on entry to the row, the `i`-th table
    /// entry with its helper and multiplicity, and the `i`-th witness tuple
    /// with its helpers; where the table or the tuples have ended, zeros
    /// stand in their place and the marker stays off.  One row more holds
    /// the final sum.  The zero selector is on at the first row and at that
    /// last one.  A helper is written as the unreduced fraction
    /// `1 / (alpha - x)`.  Rows past the table carry no multiplicity:
    /// unused rows of the circuit are not folded into the multiplicity of
    /// the first table entry.
    #[verifier::rlimit(50)]
    pub fn assign(&self, alpha: Option<Scalar>) -> (r: (Region, Option<Rational>))
        requires
            self.wf(),
        ensures
            r.0.cells() == self.grid(deferred_scalar(alpha)),
            r.0.selectors() == self.selector_rows(),
            r.0.copies() == Seq::<(Cell, Cell)>::empty(),
            helpers_unreduced(
                self.cfg(),
                deferred_scalar(alpha),
                self.witnesses(),
                self.table_len(),
                r.0.assignments@,
            ),
            deferred_value(r.1) == self.accumulator(deferred_scalar(alpha), self.rows()),
    {
        let ghost a = deferred_scalar(alpha);
        let ghost tuples = self.witnesses();
        let ghost len = self.table_len();
        let table_len = self.table_size();
        let rows = if self.witnesses.len() >= table_len {
            self.witnesses.len()
        } else {
            table_len
        };
        let mut ctx = RegionCtx::new(Region::new());
        let mut acc = Some(Rational::from_scalar(Scalar::zero()));
        ctx.enable(self.cfg.s_zero);
        proof {
            lemma_grid_start(self.cfg, a, tuples, len);
            assert(ctx.region.selectors() =~= selector_rows_until(self.cfg, tuples, len, 0, 0));
            self.cfg.lemma_column_slot(0);
        }
        let mut i: usize = 0;
        while i < rows
            invariant
                0 <= i <= rows,
                self.wf(),
                rows == self.rows(),
                table_len == self.table_len(),
                a == deferred_scalar(alpha),
                tuples == self.witnesses(),
                len == self.table_len(),
                self.cfg.slot(self.cfg.acc.any()) == Some(0nat),
                ctx.offset == i,
                ctx.region.cells() == grid_until(self.cfg, a, tuples, len, i as nat, 0),
                ctx.region.selectors() == selector_rows_until(self.cfg, tuples, len, i as nat, 0),
                ctx.region.copies() == Seq::<(Cell, Cell)>::empty(),
                helpers_unreduced(self.cfg, a, tuples, len, ctx.region.assignments@),
                deferred_value(acc) == self.accumulator(a, i as nat),
            decreases rows - i,
        {
            ctx.enable(self.cfg.s_acc);
            assert(ctx.region.selectors() =~= selector_rows_until(self.cfg, tuples, len, i as nat, 1));
            ctx.advice(self.cfg.acc, acc);
            proof {
                lemma_grid_write(self.cfg, a, tuples, len, i as nat, 0, self.accumulator(a, i as nat));
            }
            acc = self.assign_table(&mut ctx, &alpha, acc, table_len);
            acc = self.assign_witness(&mut ctx, &alpha, acc);
            ctx.next();
            i += 1;
        }
        ctx.advice(self.cfg.acc, acc);
        proof {
            lemma_grid_write(self.cfg, a, tuples, len, rows as nat, 0, self.accumulator(a, rows as nat));
            lemma_grid_complete(self.cfg, a, tuples, len);
        }
        ctx.enable(self.cfg.s_zero);
        assert(ctx.region.selectors() =~= self.selector_rows());
        (ctx.region, acc)
    }

    /// Lays out this gate for the challenge `alpha`: the region that
    /// [`Self::assign`] gives, unless the final running sum is known and is
    /// not zero.
    pub fn layout(&self, alpha: Option<Scalar>) -> (r: Result<Region, LayoutError>)
        requires
            self.wf(),
        ensures
            r is Err <==> self.unbalanced(deferred_scalar(alpha)),
            r matches Ok(region) ==> {
                &&& region.cells() == self.grid(deferred_scalar(alpha))
                &&& region.selectors() == self.selector_rows()
                &&& region.copies() == Seq::<(Cell, Cell)>::empty()
                &&& helpers_unreduced(
                    self.cfg(),
                    deferred_scalar(alpha),
                    self.witnesses(),
                    self.table_len(),
                    region.assignments@,
                )
            },
            r matches Err(e) ==> e == LayoutError::Unbalanced,
    {
        let (region, acc) = self.assign(alpha);
        match acc {
            Some(sum) => {
                if sum.evaluate().is_zero() {
                    Ok(region)
                } else {
                    Err(LayoutError::Unbalanced)
                }
            },
            None => Ok(region),
        }
    }
}

} // verus!
