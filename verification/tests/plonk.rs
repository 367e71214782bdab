use halo2_axiom::halo2curves::bn256::Fr;
use halo2_axiom::plonk::Assigned;
use lookup_gates::field::Scalar;
use lookup_gates::plonk::{ConstraintSystem, Expression};
use lookup_gates::rational::Rational;
use lookup_gates::region::{Advice, Any, Cell, Column, Fixed, Region, RegionCtx, Selector};

/// The field element that a fraction stands for.
fn eval(r: Rational) -> [u64; 4] {
    let fraction = Assigned::Rational(Fr::from_raw(r.numerator.to_limbs()), Fr::from_raw(r.denominator.to_limbs()));
    fraction.evaluate().into()
}


#[test]
fn columns_are_numbered_by_type() {
    let mut meta = ConstraintSystem::new();
    let a = meta.advice_column();
    let f = meta.fixed_column();
    let b = meta.advice_column_in(1);
    let c = meta.advice_column_in(2);
    let t = meta.lookup_table_column();
    assert_eq!((a.index, a.column_type.phase), (0, 0));
    assert_eq!((b.index, b.column_type.phase), (1, 1));
    assert_eq!((c.index, c.column_type.phase), (2, 2));
    assert_eq!(f.index, 0);
    assert_eq!(t.inner.index, 1);
    assert_eq!(meta.advice_phases, vec![0, 1, 2]);
    assert_eq!(meta.fixed_tables, vec![false, true]);
}

#[test]
fn selectors_and_challenges_are_numbered() {
    let mut meta = ConstraintSystem::new();
    meta.advice_column();
    let s = meta.selector();
    let c = meta.complex_selector();
    let alpha = meta.challenge_usable_after(0);
    assert_eq!(s, Selector { index: 0, simple: true });
    assert_eq!(c, Selector { index: 1, simple: false });
    assert_eq!((alpha.index, alpha.phase), (0, 0));
    assert_eq!(meta.selectors, vec![true, false]);
    assert_eq!(meta.challenge_phases, vec![0]);
}

#[test]
fn a_gate_is_its_selector_times_its_identity() {
    let mut meta = ConstraintSystem::new();
    let a = meta.advice_column();
    let s = meta.selector();
    let identity = Expression::query_advice(a, 0).minus(Expression::constant(Scalar::one()));
    meta.create_gate("is one", Expression::query_selector(s), identity);
    assert_eq!(meta.gates.len(), 1);
    assert_eq!(meta.gates[0].name, "is one");
    match &meta.gates[0].poly {
        Expression::Product(selector, identity) => {
            assert!(matches!(**selector, Expression::Selector(x) if x == s));
            match &**identity {
                Expression::Sum(left, right) => {
                    assert!(matches!(**left, Expression::Advice { column, rotation: 0 } if column == a));
                    assert!(matches!(**right, Expression::Negated(_)));
                }
                other => panic!("{:?}", other),
            }
        }
        other => panic!("{:?}", other),
    }
}

#[test]
fn a_lookup_is_recorded_with_its_table() {
    let mut meta = ConstraintSystem::new();
    let a = meta.advice_column();
    let t = meta.lookup_table_column();
    let s = meta.complex_selector();
    let index = meta.lookup("lookup", Expression::query_selector(s).times(Expression::query_advice(a, 0)), t);
    assert_eq!(index, 0);
    assert_eq!(meta.lookups.len(), 1);
    assert_eq!(meta.lookups[0].table, t);
    assert!(matches!(meta.lookups[0].input, Expression::Product(_, _)));
}

#[test]
fn the_cursor_writes_at_its_row_and_moves_down() {
    let advice = Column { index: 3, column_type: Advice { phase: 0 } };
    let fixed = Column { index: 1, column_type: Fixed };
    let mut ctx = RegionCtx::new(Region::new());
    assert_eq!(ctx.offset(), 0);
    let first = ctx.fixed(fixed, Scalar::from_u64(7));
    ctx.next();
    let second = ctx.advice(advice, Some(Rational::from_scalar(Scalar::from_u64(9))));
    let unknown = ctx.advice(advice, None);
    assert_eq!(ctx.offset(), 1);
    assert_eq!(first.cell.row_offset, 0);
    assert_eq!(first.cell.column, fixed.to_any());
    assert_eq!(eval(first.value.unwrap()), [7, 0, 0, 0]);
    assert_eq!(second.cell.row_offset, 1);
    assert_eq!(second.cell.column, advice.to_any());
    assert_eq!(eval(second.value.unwrap()), [9, 0, 0, 0]);
    assert!(unknown.value.is_none());
    assert_eq!(ctx.region.assignments.len(), 3);
    ctx.zero();
    assert_eq!(ctx.offset(), 0);
    assert_eq!(ctx.region.assignments.len(), 3);
}

#[test]
fn an_empty_cell_holds_zero() {
    let advice: Column<Any> = Column { index: 0, column_type: Any::Advice(Advice { phase: 1 }) };
    let fixed: Column<Any> = Column { index: 0, column_type: Any::Fixed };
    let mut ctx = RegionCtx::new(Region::new());
    let a = ctx.empty(advice);
    let f = ctx.empty(fixed);
    assert_eq!(eval(a.value.unwrap()), [0, 0, 0, 0]);
    assert_eq!(eval(f.value.unwrap()), [0, 0, 0, 0]);
    assert_eq!(a.cell.column, advice);
    assert_eq!(f.cell.column, fixed);
}

#[test]
fn selectors_and_copies_are_recorded() {
    let advice = Column { index: 0, column_type: Advice { phase: 0 } };
    let s = Selector { index: 2, simple: true };
    let mut ctx = RegionCtx::new(Region::new());
    let source = ctx.advice(advice, Some(Rational::from_scalar(Scalar::from_u64(4))));
    ctx.next();
    ctx.enable(s);
    let copied = ctx.copy(advice, &source);
    assert_eq!(eval(copied.value.unwrap()), [4, 0, 0, 0]);
    assert_eq!(copied.cell.row_offset, 1);
    assert_eq!(ctx.region.enabled, vec![(s, 1)]);
    assert_eq!(ctx.region.equalities.len(), 1);
    assert_eq!(ctx.region.equalities[0].0.row_offset, 1);
    assert_eq!(ctx.region.equalities[0].1.row_offset, 0);
    let other = Cell { row_offset: 5, column: advice.to_any() };
    ctx.equal(source.cell, other);
    assert_eq!(ctx.region.equalities.len(), 2);
    assert_eq!(ctx.region.equalities[1].1.row_offset, 5);
}
