//! Columns, selectors and the cells of one assignment region, and the cursor
//! that fills a region row by row.

use crate::field::Scalar;
use crate::rational::{deferred_value, Rational};
use vstd::prelude::*;

verus! {

/// An advice column's type, with the phase in which it is committed.
#[derive(Clone, Copy, Debug, PartialEq, Eq, Hash)]
pub struct Advice {
    pub phase: u8,
}

/// A fixed column's type.
#[derive(Clone, Copy, Debug, PartialEq, Eq, Hash)]
pub struct Fixed;

/// Any column's type.
#[derive(Clone, Copy, Debug, PartialEq, Eq, Hash)]
pub enum Any {
    Advice(Advice),
    Fixed,
    Instance,
}

/// A column: its index among the columns of its type, and its type.
#[derive(Clone, Copy, Debug, PartialEq, Eq, Hash)]
pub struct Column<C> {
    pub index: usize,
    pub column_type: C,
}

impl Column<Advice> {
    pub open spec fn any(self) -> Column<Any> {
        Column { index: self.index, column_type: Any::Advice(self.column_type) }
    }

    pub fn to_any(&self) -> (r: Column<Any>)
        ensures
            r == self.any(),
    {
        Column { index: self.index, column_type: Any::Advice(self.column_type) }
    }
}

impl Column<Fixed> {
    pub open spec fn any(self) -> Column<Any> {
        Column { index: self.index, column_type: Any::Fixed }
    }

    pub fn to_any(&self) -> (r: Column<Any>)
        ensures
            r == self.any(),
    {
        Column { index: self.index, column_type: Any::Fixed }
    }
}

/// A boolean selector: its index, and whether it is simple (usable in one
/// linear identity only) or complex.
#[derive(Clone, Copy, Debug, PartialEq, Eq, Hash)]
pub struct Selector {
    pub index: usize,
    pub simple: bool,
}

/// A cell of a region: a column at a row offset.
#[derive(Clone, Copy, Debug)]
pub struct Cell {
    pub row_offset: usize,
    pub column: Column<Any>,
}

/// A cell together with the value it was given.
#[derive(Clone, Copy, Debug)]
pub struct AssignedValue {
    pub value: Option<Rational>,
    pub cell: Cell,
}

/// What one assignment region was given, in the order of the writes.
#[derive(Clone, Debug)]
pub struct Region {
    /// The cells that were written, each with its value.
    pub assignments: Vec<AssignedValue>,
    /// The selectors that were enabled, each with its row.
    pub enabled: Vec<(Selector, usize)>,
    /// The pairs of cells that were constrained to be equal.
    pub equalities: Vec<(Cell, Cell)>,
}

/// The grid that a sequence of writes leaves: a later write to a cell
/// replaces an earlier one.
pub open spec fn grid_of(writes: Seq<AssignedValue>) -> Map<(Column<Any>, nat), Option<nat>>
    decreases writes.len(),
{
    if writes.len() == 0 {
        Map::empty()
    } else {
        let w = writes.last();
        grid_of(writes.drop_last()).insert(
            (w.cell.column, w.cell.row_offset as nat),
            deferred_value(w.value),
        )
    }
}

/// The (selector, row) pairs among `enabled`.
pub open spec fn enabled_set(enabled: Seq<(Selector, usize)>) -> Set<(Selector, nat)> {
    Set::new(
        |p: (Selector, nat)|
            exists|i: int|
                0 <= i < enabled.len() && #[trigger] enabled[i] == (p.0, p.1 as usize) && p.1 <= usize::MAX,
    )
}

impl Region {
    /// The field element in each assigned cell, `None` for a value that is
    /// not known yet.
    pub open spec fn cells(self) -> Map<(Column<Any>, nat), Option<nat>> {
        grid_of(self.assignments@)
    }

    /// The rows at which each selector is enabled.
    pub open spec fn selectors(self) -> Set<(Selector, nat)> {
        enabled_set(self.enabled@)
    }

    /// The pairs of cells constrained to be equal, in order.
    pub open spec fn copies(self) -> Seq<(Cell, Cell)> {
        self.equalities@
    }

    /// A region with nothing assigned.
    pub fn new() -> (r: Region)
        ensures
            r.assignments@ == Seq::<AssignedValue>::empty(),
            r.cells() == Map::<(Column<Any>, nat), Option<nat>>::empty(),
            r.selectors() == Set::<(Selector, nat)>::empty(),
            r.copies() == Seq::<(Cell, Cell)>::empty(),
    {
        let r = Region { assignments: Vec::new(), enabled: Vec::new(), equalities: Vec::new() };
        assert(r.selectors() =~= Set::<(Selector, nat)>::empty());
        r
    }
}

/// A cursor over a region: it writes at its current row and moves down.
#[derive(Clone, Debug)]
pub struct RegionCtx {
    /// What was written so far.
    pub region: Region,
    /// The current row.
    pub offset: usize,
}

impl RegionCtx {
    /// A cursor at the first row of `region`.
    pub fn new(region: Region) -> (r: RegionCtx)
        ensures
            r.region == region,
            r.offset == 0,
    {
        RegionCtx { region, offset: 0 }
    }

    /// Moves the cursor back to the first row.
    pub fn zero(&mut self)
        ensures
            final(self).region == old(self).region,
            final(self).offset == 0,
    {
        self.offset = 0;
    }

    /// The current row.
    pub fn offset(&self) -> (r: usize)
        ensures
            r == self.offset,
    {
        self.offset
    }

    fn write(&mut self, column: Column<Any>, value: Option<Rational>) -> (r: AssignedValue)
        ensures
            final(self).offset == old(self).offset,
            final(self).region.cells() == old(self).region.cells().insert(
                (column, old(self).offset as nat),
                deferred_value(value),
            ),
            final(self).region.assignments@ == old(self).region.assignments@.push(r),
            final(self).region.enabled == old(self).region.enabled,
            final(self).region.equalities == old(self).region.equalities,
            r.value == value,
            r.cell.column == column,
            r.cell.row_offset == old(self).offset,
    {
        let assigned = AssignedValue { value, cell: Cell { row_offset: self.offset, column } };
        self.region.assignments.push(assigned);
        proof {
            assert(self.region.assignments@.drop_last() =~= old(self).region.assignments@);
        }
        assigned
    }

    /// Writes `value` into the fixed column at the current row.
    pub fn fixed(&mut self, column: Column<Fixed>, value: Scalar) -> (r: AssignedValue)
        ensures
            final(self).offset == old(self).offset,
            final(self).region.assignments@ == old(self).region.assignments@.push(r),
            final(self).region.cells() == old(self).region.cells().insert(
                (column.any(), old(self).offset as nat),
                Some(value@),
            ),
            final(self).region.selectors() == old(self).region.selectors(),
            final(self).region.copies() == old(self).region.copies(),
            deferred_value(r.value) == Some(value@),
            r.cell.column == column.any(),
            r.cell.row_offset == old(self).offset,
    {
        self.write(column.to_any(), Some(Rational::from_scalar(value)))
    }

    /// Writes the deferred `value` into the advice column at the current row.
    pub fn advice(&mut self, column: Column<Advice>, value: Option<Rational>) -> (r: AssignedValue)
        ensures
            final(self).offset == old(self).offset,
            final(self).region.assignments@ == old(self).region.assignments@.push(r),
            final(self).region.cells() == old(self).region.cells().insert(
                (column.any(), old(self).offset as nat),
                deferred_value(value),
            ),
            final(self).region.selectors() == old(self).region.selectors(),
            final(self).region.copies() == old(self).region.copies(),
            r.value == value,
            r.cell.column == column.any(),
            r.cell.row_offset == old(self).offset,
    {
        self.write(column.to_any(), value)
    }

    /// Writes zero into the column at the current row.  An instance column
    /// cannot be assigned.
    pub fn empty(&mut self, column: Column<Any>) -> (r: AssignedValue)
        requires
            !(column.column_type is Instance),
        ensures
            final(self).offset == old(self).offset,
            final(self).region.assignments@ == old(self).region.assignments@.push(r),
            final(self).region.cells() == old(self).region.cells().insert(
                (column, old(self).offset as nat),
                Some(0nat),
            ),
            final(self).region.selectors() == old(self).region.selectors(),
            final(self).region.copies() == old(self).region.copies(),
            deferred_value(r.value) == Some(0nat),
            r.cell.column == column,
            r.cell.row_offset == old(self).offset,
    {
        match column.column_type {
            Any::Advice(a) => self.advice(
                Column { index: column.index, column_type: a },
                Some(Rational::from_scalar(Scalar::zero())),
            ),
            Any::Fixed => self.fixed(Column { index: column.index, column_type: Fixed }, Scalar::zero()),
            Any::Instance => {
                proof {
                    assert(false);
                }
                self.write(column, None)
            },
        }
    }

    /// Writes the value of `assigned` into the advice column at the current
    /// row and constrains the new cell to equal the cell it came from.
    pub fn copy(&mut self, column: Column<Advice>, assigned: &AssignedValue) -> (r: AssignedValue)
        ensures
            final(self).offset == old(self).offset,
            final(self).region.assignments@ == old(self).region.assignments@.push(r),
            final(self).region.cells() == old(self).region.cells().insert(
                (column.any(), old(self).offset as nat),
                deferred_value(assigned.value),
            ),
            final(self).region.selectors() == old(self).region.selectors(),
            final(self).region.copies() == old(self).region.copies().push((r.cell, assigned.cell)),
            r.value == assigned.value,
            r.cell.column == column.any(),
            r.cell.row_offset == old(self).offset,
    {
        let r = self.write(column.to_any(), assigned.value);
        self.region.equalities.push((r.cell, assigned.cell));
        r
    }

    /// Constrains two cells to hold the same value.
    pub fn equal(&mut self, cell_0: Cell, cell_1: Cell)
        ensures
            final(self).offset == old(self).offset,
            final(self).region.assignments == old(self).region.assignments,
            final(self).region.cells() == old(self).region.cells(),
            final(self).region.selectors() == old(self).region.selectors(),
            final(self).region.copies() == old(self).region.copies().push((cell_0, cell_1)),
    {
        self.region.equalities.push((cell_0, cell_1));
    }

    /// Enables `selector` at the current row.
    pub fn enable(&mut self, selector: Selector)
        ensures
            final(self).offset == old(self).offset,
            final(self).region.assignments == old(self).region.assignments,
            final(self).region.cells() == old(self).region.cells(),
            final(self).region.selectors() == old(self).region.selectors().insert(
                (selector, old(self).offset as nat),
            ),
            final(self).region.copies() == old(self).region.copies(),
    {
        self.region.enabled.push((selector, self.offset));
        proof {
            let a = self.region.enabled@;
            let b = old(self).region.enabled@;
            let key = (selector, old(self).offset as nat);
            assert(a[a.len() - 1] == (selector, old(self).offset));
            assert forall|p: (Selector, nat)| enabled_set(a).contains(p) <==> enabled_set(b).insert(key).contains(p) by {
                if enabled_set(a).contains(p) {
                    let i = choose|i: int| 0 <= i < a.len() && #[trigger] a[i] == (p.0, p.1 as usize) && p.1 <= usize::MAX;
                    if i < b.len() {
                        assert(b[i] == a[i]);
                    }
                }
                if enabled_set(b).contains(p) {
                    let i = choose|i: int| 0 <= i < b.len() && #[trigger] b[i] == (p.0, p.1 as usize) && p.1 <= usize::MAX;
                    assert(a[i] == b[i]);
                }
            }
            assert(enabled_set(a) =~= enabled_set(b).insert(key));
        }
    }

    /// Moves the cursor to the next row.
    pub fn next(&mut self)
        requires
            old(self).offset < usize::MAX,
        ensures
            final(self).region == old(self).region,
            final(self).offset == old(self).offset + 1,
    {
        self.offset += 1
    }
}

} // verus!
