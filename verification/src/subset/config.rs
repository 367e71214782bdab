//! What the subset gate declares: a table column, a selector, and one
//! native lookup for each witness column.

use crate::field::field_mul;
use crate::plonk::{cell_value, selector_value, ConstraintSystem, Expression, Lookup, TableColumn};
use crate::region::{Advice, Any, Column, Selector};
use vstd::prelude::*;

verus! {

/// The columns and the selector of one gate of `w.len()` witness columns.
#[derive(Clone, Debug)]
pub struct SubsetConfig {
    /// The witness columns.
    pub w: Vec<Column<Advice>>,
    /// The table column.
    pub t: TableColumn,
    /// Marks the rows that hold a witness tuple.
    pub s: Selector,
}

impl SubsetConfig {
    /// No witness column is used twice, and the selector is complex.
    pub open spec fn wf(self) -> bool {
        &&& forall|i: int, j: int| 0 <= i < j < self.w@.len() ==> self.w@[i].index != self.w@[j].index
        &&& !self.s.simple
    }

    /// What witness column `i` looks up at `row`: its cell where the
    /// selector is on, zero elsewhere.
    pub open spec fn lookup_input(
        self,
        i: int,
        cells: Map<(Column<Any>, nat), Option<nat>>,
        selectors: Set<(Selector, nat)>,
        row: int,
    ) -> nat {
        field_mul(selector_value(selectors, self.s, row), cell_value(cells, self.w@[i].any(), row))
    }

    /// What declaring this gate adds to a constraint system that held the
    /// given fixed columns, selectors and lookups before: one table column,
    /// one complex selector, and for each witness column a lookup of
    /// `s * w` in the table column.
    pub open spec fn declared(
        self,
        fixed: Seq<bool>,
        selectors_before: Seq<bool>,
        lookups: Seq<Lookup>,
        after: ConstraintSystem,
    ) -> bool {
        &&& self.t.inner.index == fixed.len()
        &&& self.s.index == selectors_before.len()
        &&& after.fixed_tables@ == fixed.push(true)
        &&& after.selectors@ == selectors_before.push(false)
        &&& after.lookups@.len() == lookups.len() + self.w@.len()
        &&& after.lookups@.subrange(0, lookups.len() as int) == lookups
        &&& forall|i: int|
            0 <= i < self.w@.len() ==> {
                &&& (#[trigger] after.lookups@[lookups.len() + i]).name == "lookup"
                &&& after.lookups@[lookups.len() + i].table == self.t
                &&& after.lookups@[lookups.len() + i].input.degree() == 2
            }
        &&& forall|i: int, cells, selectors, challenges, row|
            0 <= i < self.w@.len() ==> #[trigger] after.lookups@[lookups.len() + i].input.eval(
                cells,
                selectors,
                challenges,
                row,
            ) == self.lookup_input(i, cells, selectors, row)
    }

    /// Declares this gate over the witness columns `w`.
    #[verifier::rlimit(50)]
    pub fn configure(meta: &mut ConstraintSystem, w: Vec<Column<Advice>>) -> (r: SubsetConfig)
        requires
            forall|i: int, j: int| 0 <= i < j < w@.len() ==> w@[i].index != w@[j].index,
        ensures
            r.wf(),
            r.w@ == w@,
            r.declared(old(meta).fixed_tables@, old(meta).selectors@, old(meta).lookups@, *final(meta)),
            final(meta).advice_phases == old(meta).advice_phases,
            final(meta).challenge_phases == old(meta).challenge_phases,
            final(meta).gates == old(meta).gates,
    {
        let ghost lookups = old(meta).lookups@;
        let t = meta.lookup_table_column();
        let s = meta.complex_selector();
        let cfg = SubsetConfig { w, t, s };
        let mut i: usize = 0;
        while i < cfg.w.len()
            invariant
                0 <= i <= cfg.w@.len(),
                !cfg.s.simple,
                meta.lookups@.len() == lookups.len() + i,
                meta.lookups@.subrange(0, lookups.len() as int) == lookups,
                forall|k: int|
                    0 <= k < i ==> {
                        &&& (#[trigger] meta.lookups@[lookups.len() + k]).name == "lookup"
                        &&& meta.lookups@[lookups.len() + k].table == cfg.t
                        &&& meta.lookups@[lookups.len() + k].input.degree() == 2
                    },
                forall|k: int, cells, selectors, challenges, row|
                    0 <= k < i ==> #[trigger] meta.lookups@[lookups.len() + k].input.eval(
                        cells,
                        selectors,
                        challenges,
                        row,
                    ) == cfg.lookup_input(k, cells, selectors, row),
                meta.fixed_tables@ == old(meta).fixed_tables@.push(true),
                meta.selectors@ == old(meta).selectors@.push(false),
                meta.advice_phases == old(meta).advice_phases,
                meta.challenge_phases == old(meta).challenge_phases,
                meta.gates == old(meta).gates,
            decreases cfg.w@.len() - i,
        {
            let ghost before = meta.lookups@;
            let input = Expression::query_selector(cfg.s).times(Expression::query_advice(cfg.w[i], 0));
            proof {
                reveal_with_fuel(Expression::contains_simple_selector, 3);
            }
            meta.lookup("lookup", input, cfg.t);
            proof {
                assert(meta.lookups@.subrange(0, lookups.len() as int) =~= before.subrange(
                    0,
                    lookups.len() as int,
                ));
                assert forall|k: int| 0 <= k < i implies #[trigger] meta.lookups@[lookups.len() + k]
                    == before[lookups.len() + k] by {}
            }
            i += 1;
        }
        cfg
    }
}

} // verus!
