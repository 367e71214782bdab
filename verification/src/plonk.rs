//! What a circuit declares before any row is assigned: its columns,
//! selectors and challenges, and the polynomial identities over them.

use crate::field::{field_add, field_mul, field_sub, lemma_modulus_bounds, modulus, Scalar};
use crate::region::{Advice, Any, Column, Fixed, Selector};
use vstd::prelude::*;

verus! {

/// The last phase in which a column can be committed.
pub const LAST_PHASE: u8 = 2;

/// A verifier challenge, drawn once the advice columns of its phase are
/// committed.
#[derive(Clone, Copy, Debug, PartialEq, Eq, Hash)]
pub struct Challenge {
    pub index: usize,
    pub phase: u8,
}

/// A fixed column that holds a lookup table.
#[derive(Clone, Copy, Debug, PartialEq, Eq, Hash)]
pub struct TableColumn {
    pub inner: Column<Fixed>,
}

/// A polynomial over the cells around a row.
#[derive(Debug)]
pub enum Expression {
    Constant(Scalar),
    Selector(Selector),
    Fixed { column: Column<Fixed>, rotation: i32 },
    Advice { column: Column<Advice>, rotation: i32 },
    Challenge(Challenge),
    Negated(Box<Expression>),
    Sum(Box<Expression>, Box<Expression>),
    Product(Box<Expression>, Box<Expression>),
}

/// The field element in a cell of the grid; zero where nothing known was
/// assigned.
pub open spec fn cell_value(cells: Map<(Column<Any>, nat), Option<nat>>, column: Column<Any>, row: int) -> nat {
    if row >= 0 && cells.contains_key((column, row as nat)) {
        match cells[(column, row as nat)] {
            Some(v) => v,
            None => 0,
        }
    } else {
        0
    }
}

/// One if the selector is enabled at the row, zero otherwise.
pub open spec fn selector_value(selectors: Set<(Selector, nat)>, selector: Selector, row: int) -> nat {
    if row >= 0 && selectors.contains((selector, row as nat)) {
        1
    } else {
        0
    }
}

/// The value of a challenge, by its index; zero where none is given.
pub open spec fn challenge_value(challenges: Map<nat, nat>, challenge: Challenge) -> nat {
    if challenges.contains_key(challenge.index as nat) {
        challenges[challenge.index as nat]
    } else {
        0
    }
}

/// Adding the negation of `b` subtracts `b`.
pub proof fn lemma_add_negated(a: nat, b: nat)
    ensures
        field_add(a, field_sub(0, b)) == field_sub(a, b),
{
    let p = modulus() as int;
    lemma_modulus_bounds();
    vstd::arithmetic::div_mod::lemma_add_mod_noop_right(a as int, -(b as int), p);
}

impl Expression {
    /// The value of the polynomial at `row` of an assigned grid, for given
    /// challenge values (by challenge index).
    pub open spec fn eval(
        self,
        cells: Map<(Column<Any>, nat), Option<nat>>,
        selectors: Set<(Selector, nat)>,
        challenges: Map<nat, nat>,
        row: int,
    ) -> nat
        decreases self,
    {
        match self {
            Expression::Constant(c) => c@,
            Expression::Selector(s) => selector_value(selectors, s, row),
            Expression::Fixed { column, rotation } => cell_value(cells, column.any(), row + rotation),
            Expression::Advice { column, rotation } => cell_value(cells, column.any(), row + rotation),
            Expression::Challenge(c) => challenge_value(challenges, c),
            Expression::Negated(e) => field_sub(0, e.eval(cells, selectors, challenges, row)),
            Expression::Sum(a, b) => field_add(
                a.eval(cells, selectors, challenges, row),
                b.eval(cells, selectors, challenges, row),
            ),
            Expression::Product(a, b) => field_mul(
                a.eval(cells, selectors, challenges, row),
                b.eval(cells, selectors, challenges, row),
            ),
        }
    }

    /// The degree of the polynomial in the cells of the grid: a selector
    /// and a cell count one, a constant and a challenge nothing.
    pub open spec fn degree(self) -> nat
        decreases self,
    {
        match self {
            Expression::Constant(_) => 0,
            Expression::Selector(_) => 1,
            Expression::Fixed { .. } => 1,
            Expression::Advice { .. } => 1,
            Expression::Challenge(_) => 0,
            Expression::Negated(e) => e.degree(),
            Expression::Sum(a, b) => if a.degree() >= b.degree() {
                a.degree()
            } else {
                b.degree()
            },
            Expression::Product(a, b) => a.degree() + b.degree(),
        }
    }

    /// Whether a simple selector occurs in the polynomial.
    pub open spec fn contains_simple_selector(self) -> bool
        decreases self,
    {
        match self {
            Expression::Selector(s) => s.simple,
            Expression::Negated(e) => e.contains_simple_selector(),
            Expression::Sum(a, b) => a.contains_simple_selector() || b.contains_simple_selector(),
            Expression::Product(a, b) => a.contains_simple_selector() || b.contains_simple_selector(),
            _ => false,
        }
    }

    /// The constant polynomial `c`.
    pub fn constant(c: Scalar) -> (r: Expression)
        ensures
            r == Expression::Constant(c),
    {
        Expression::Constant(c)
    }

    /// The selector's value at the row.
    pub fn query_selector(selector: Selector) -> (r: Expression)
        ensures
            r == Expression::Selector(selector),
    {
        Expression::Selector(selector)
    }

    /// The fixed column's cell `rotation` rows below the row.
    pub fn query_fixed(column: Column<Fixed>, rotation: i32) -> (r: Expression)
        ensures
            r == (Expression::Fixed { column, rotation }),
    {
        Expression::Fixed { column, rotation }
    }

    /// The advice column's cell `rotation` rows below the row.
    pub fn query_advice(column: Column<Advice>, rotation: i32) -> (r: Expression)
        ensures
            r == (Expression::Advice { column, rotation }),
    {
        Expression::Advice { column, rotation }
    }

    /// The challenge's value.
    pub fn query_challenge(challenge: Challenge) -> (r: Expression)
        ensures
            r == Expression::Challenge(challenge),
    {
        Expression::Challenge(challenge)
    }

    /// `self + rhs`.
    pub fn plus(self, rhs: Expression) -> (r: Expression)
        ensures
            r == Expression::Sum(Box::new(self), Box::new(rhs)),
            r.degree() == if self.degree() >= rhs.degree() {
                self.degree()
            } else {
                rhs.degree()
            },
            forall|cells, selectors, challenges, row| #[trigger]
                r.eval(cells, selectors, challenges, row) == field_add(
                    self.eval(cells, selectors, challenges, row),
                    rhs.eval(cells, selectors, challenges, row),
                ),
    {
        Expression::Sum(Box::new(self), Box::new(rhs))
    }

    /// `self - rhs`, as the sum of `self` and the negated `rhs`.
    pub fn minus(self, rhs: Expression) -> (r: Expression)
        ensures
            r == Expression::Sum(Box::new(self), Box::new(Expression::Negated(Box::new(rhs)))),
            r.degree() == if self.degree() >= rhs.degree() {
                self.degree()
            } else {
                rhs.degree()
            },
            forall|cells, selectors, challenges, row| #[trigger]
                r.eval(cells, selectors, challenges, row) == field_sub(
                    self.eval(cells, selectors, challenges, row),
                    rhs.eval(cells, selectors, challenges, row),
                ),
    {
        let r = Expression::Sum(Box::new(self), Box::new(Expression::Negated(Box::new(rhs))));
        proof {
            reveal_with_fuel(Expression::degree, 3);
            assert forall|cells, selectors, challenges, row| #[trigger]
                r.eval(cells, selectors, challenges, row) == field_sub(
                    self.eval(cells, selectors, challenges, row),
                    rhs.eval(cells, selectors, challenges, row),
                ) by {
                reveal_with_fuel(Expression::eval, 3);
                lemma_add_negated(
                    self.eval(cells, selectors, challenges, row),
                    rhs.eval(cells, selectors, challenges, row),
                );
            }
        }
        r
    }

    /// `self * rhs`.
    pub fn times(self, rhs: Expression) -> (r: Expression)
        ensures
            r == Expression::Product(Box::new(self), Box::new(rhs)),
            r.degree() == self.degree() + rhs.degree(),
            forall|cells, selectors, challenges, row| #[trigger]
                r.eval(cells, selectors, challenges, row) == field_mul(
                    self.eval(cells, selectors, challenges, row),
                    rhs.eval(cells, selectors, challenges, row),
                ),
    {
        Expression::Product(Box::new(self), Box::new(rhs))
    }
}

/// A named polynomial identity: the polynomial must vanish on every row.
#[derive(Debug)]
pub struct Gate {
    pub name: &'static str,
    pub poly: Expression,
}

/// A native lookup argument: on every row the input must occur somewhere in
/// the table column.
#[derive(Debug)]
pub struct Lookup {
    pub name: &'static str,
    pub input: Expression,
    pub table: TableColumn,
}

/// The declarations of a circuit.
#[derive(Debug)]
pub struct ConstraintSystem {
    /// The phase of each advice column.
    pub advice_phases: Vec<u8>,
    /// For each fixed column, whether it is a lookup-table column.
    pub fixed_tables: Vec<bool>,
    /// For each selector, whether it is simple.
    pub selectors: Vec<bool>,
    /// The phase after which each challenge is usable.
    pub challenge_phases: Vec<u8>,
    pub gates: Vec<Gate>,
    pub lookups: Vec<Lookup>,
}

impl ConstraintSystem {
    /// Whether an advice column is committed in `phase`.
    pub open spec fn phase_exists(self, phase: u8) -> bool {
        self.advice_phases@.contains(phase)
    }

    /// A constraint system with nothing declared.
    pub fn new() -> (r: ConstraintSystem)
        ensures
            r.advice_phases@.len() == 0,
            r.fixed_tables@.len() == 0,
            r.selectors@.len() == 0,
            r.challenge_phases@.len() == 0,
            r.gates@.len() == 0,
            r.lookups@.len() == 0,
    {
        ConstraintSystem {
            advice_phases: Vec::new(),
            fixed_tables: Vec::new(),
            selectors: Vec::new(),
            challenge_phases: Vec::new(),
            gates: Vec::new(),
            lookups: Vec::new(),
        }
    }

    /// Allocates an advice column in the first phase.
    pub fn advice_column(&mut self) -> (r: Column<Advice>)
        ensures
            r.index == old(self).advice_phases@.len(),
            r.column_type.phase == 0,
            final(self).advice_phases@ == old(self).advice_phases@.push(0u8),
            final(self).fixed_tables == old(self).fixed_tables,
            final(self).selectors == old(self).selectors,
            final(self).challenge_phases == old(self).challenge_phases,
            final(self).gates == old(self).gates,
            final(self).lookups == old(self).lookups,
    {
        self.advice_column_in(0)
    }

    /// Allocates an advice column in `phase`.  A column of a later phase
    /// needs a column in the phase before it.
    pub fn advice_column_in(&mut self, phase: u8) -> (r: Column<Advice>)
        requires
            phase <= LAST_PHASE,
            phase > 0 ==> old(self).phase_exists((phase - 1) as u8),
        ensures
            r.index == old(self).advice_phases@.len(),
            r.column_type.phase == phase,
            final(self).advice_phases@ == old(self).advice_phases@.push(phase),
            final(self).fixed_tables == old(self).fixed_tables,
            final(self).selectors == old(self).selectors,
            final(self).challenge_phases == old(self).challenge_phases,
            final(self).gates == old(self).gates,
            final(self).lookups == old(self).lookups,
    {
        let index = self.advice_phases.len();
        self.advice_phases.push(phase);
        Column { index, column_type: Advice { phase } }
    }

    /// Allocates a fixed column.
    pub fn fixed_column(&mut self) -> (r: Column<Fixed>)
        ensures
            r.index == old(self).fixed_tables@.len(),
            final(self).fixed_tables@ == old(self).fixed_tables@.push(false),
            final(self).advice_phases == old(self).advice_phases,
            final(self).selectors == old(self).selectors,
            final(self).challenge_phases == old(self).challenge_phases,
            final(self).gates == old(self).gates,
            final(self).lookups == old(self).lookups,
    {
        let index = self.fixed_tables.len();
        self.fixed_tables.push(false);
        Column { index, column_type: Fixed }
    }

    /// Allocates a fixed column that holds a lookup table.
    pub fn lookup_table_column(&mut self) -> (r: TableColumn)
        ensures
            r.inner.index == old(self).fixed_tables@.len(),
            final(self).fixed_tables@ == old(self).fixed_tables@.push(true),
            final(self).advice_phases == old(self).advice_phases,
            final(self).selectors == old(self).selectors,
            final(self).challenge_phases == old(self).challenge_phases,
            final(self).gates == old(self).gates,
            final(self).lookups == old(self).lookups,
    {
        let index = self.fixed_tables.len();
        self.fixed_tables.push(true);
        TableColumn { inner: Column { index, column_type: Fixed } }
    }

    /// Allocates a simple selector.
    pub fn selector(&mut self) -> (r: Selector)
        ensures
            r.index == old(self).selectors@.len(),
            r.simple,
            final(self).selectors@ == old(self).selectors@.push(true),
            final(self).advice_phases == old(self).advice_phases,
            final(self).fixed_tables == old(self).fixed_tables,
            final(self).challenge_phases == old(self).challenge_phases,
            final(self).gates == old(self).gates,
            final(self).lookups == old(self).lookups,
    {
        let index = self.selectors.len();
        self.selectors.push(true);
        Selector { index, simple: true }
    }

    /// Allocates a complex selector, which may occur anywhere in an
    /// identity.
    pub fn complex_selector(&mut self) -> (r: Selector)
        ensures
            r.index == old(self).selectors@.len(),
            !r.simple,
            final(self).selectors@ == old(self).selectors@.push(false),
            final(self).advice_phases == old(self).advice_phases,
            final(self).fixed_tables == old(self).fixed_tables,
            final(self).challenge_phases == old(self).challenge_phases,
            final(self).gates == old(self).gates,
            final(self).lookups == old(self).lookups,
    {
        let index = self.selectors.len();
        self.selectors.push(false);
        Selector { index, simple: false }
    }

    /// Requests a challenge that is drawn after the advice columns of
    /// `phase` are committed; some advice column must be in that phase.
    pub fn challenge_usable_after(&mut self, phase: u8) -> (r: Challenge)
        requires
            phase <= LAST_PHASE,
            old(self).phase_exists(phase),
        ensures
            r.index == old(self).challenge_phases@.len(),
            r.phase == phase,
            final(self).challenge_phases@ == old(self).challenge_phases@.push(phase),
            final(self).advice_phases == old(self).advice_phases,
            final(self).fixed_tables == old(self).fixed_tables,
            final(self).selectors == old(self).selectors,
            final(self).gates == old(self).gates,
            final(self).lookups == old(self).lookups,
    {
        let index = self.challenge_phases.len();
        self.challenge_phases.push(phase);
        Challenge { index, phase }
    }

    /// Registers the identity `selector * identity = 0`.
    pub fn create_gate(&mut self, name: &'static str, selector: Expression, identity: Expression)
        ensures
            final(self).gates@ == old(self).gates@.push(
                (Gate { name, poly: Expression::Product(Box::new(selector), Box::new(identity)) }),
            ),
            final(self).gates@.last().poly.degree() == selector.degree() + identity.degree(),
            forall|cells, selectors, challenges, row| #[trigger]
                final(self).gates@.last().poly.eval(cells, selectors, challenges, row) == field_mul(
                    selector.eval(cells, selectors, challenges, row),
                    identity.eval(cells, selectors, challenges, row),
                ),
            final(self).advice_phases == old(self).advice_phases,
            final(self).fixed_tables == old(self).fixed_tables,
            final(self).selectors == old(self).selectors,
            final(self).challenge_phases == old(self).challenge_phases,
            final(self).lookups == old(self).lookups,
    {
        self.gates.push(Gate { name, poly: selector.times(identity) });
    }

    /// Registers a native lookup of `input` in the table column, and
    /// returns its index.  A simple selector cannot occur in the input.
    pub fn lookup(&mut self, name: &'static str, input: Expression, table: TableColumn) -> (r: usize)
        requires
            !input.contains_simple_selector(),
        ensures
            r == old(self).lookups@.len(),
            final(self).lookups@ == old(self).lookups@.push((Lookup { name, input, table })),
            final(self).advice_phases == old(self).advice_phases,
            final(self).fixed_tables == old(self).fixed_tables,
            final(self).selectors == old(self).selectors,
            final(self).challenge_phases == old(self).challenge_phases,
            final(self).gates == old(self).gates,
    {
        let index = self.lookups.len();
        self.lookups.push(Lookup { name, input, table });
        index
    }
}

} // verus!
