use halo2_axiom::halo2curves::bn256::Fr;
use halo2_axiom::plonk::Assigned;
use lookup_gates::field::Scalar;
use lookup_gates::plonk::{ConstraintSystem, Expression};
use lookup_gates::rational::Rational;
use lookup_gates::subset::assignments::SubsetGate;

/// The field element that a fraction stands for.
fn eval(r: Rational) -> [u64; 4] {
    let fraction = Assigned::Rational(Fr::from_raw(r.numerator.to_limbs()), Fr::from_raw(r.denominator.to_limbs()));
    fraction.evaluate().into()
}


fn known(v: u64) -> Option<Scalar> {
    Some(Scalar::from_u64(v))
}

#[test]
fn the_subset_gate_declares_a_lookup_for_each_witness_column() {
    let mut meta = ConstraintSystem::new();
    let gate = SubsetGate::<3>::configure(&mut meta, 4);
    let cfg = gate.config();
    assert_eq!(meta.advice_phases, vec![0, 0, 0]);
    assert_eq!(meta.fixed_tables, vec![true]);
    assert_eq!(meta.selectors, vec![false]);
    assert!(meta.challenge_phases.is_empty());
    assert!(meta.gates.is_empty());
    assert_eq!(meta.lookups.len(), 3);
    for (i, lookup) in meta.lookups.iter().enumerate() {
        assert_eq!(lookup.name, "lookup");
        assert_eq!(lookup.table, cfg.t);
        match &lookup.input {
            Expression::Product(s, w) => {
                assert!(matches!(**s, Expression::Selector(x) if x == cfg.s));
                assert!(matches!(**w, Expression::Advice { column, rotation: 0 } if column == cfg.w[i]));
            }
            other => panic!("{:?}", other),
        }
    }
}

#[test]
fn the_subset_layout_holds_the_table_and_one_row_for_each_tuple() {
    let mut meta = ConstraintSystem::new();
    let mut gate = SubsetGate::<2>::configure(&mut meta, 3);
    gate.lookup(&[known(5), known(7)]);
    gate.lookup(&[known(0), None]);
    gate.lookup(&[known(9), known(1)]);
    assert_eq!(gate.len(), 3);
    let cfg = gate.config().clone();
    let layout = gate.layout();
    let table: Vec<[u64; 4]> = layout.table.iter().map(|s| s.to_limbs()).collect();
    assert_eq!(table, (0..8u64).map(|i| [i, 0, 0, 0]).collect::<Vec<_>>());
    let cells: Vec<(usize, usize, Option<u64>)> = layout
        .region
        .assignments
        .iter()
        .map(|a| (a.cell.column.index, a.cell.row_offset, a.value.map(|v| eval(v)[0])))
        .collect();
    assert_eq!(
        cells,
        vec![
            (cfg.w[0].index, 0, Some(5)),
            (cfg.w[1].index, 0, Some(7)),
            (cfg.w[0].index, 1, Some(0)),
            (cfg.w[1].index, 1, None),
            (cfg.w[0].index, 2, Some(9)),
            (cfg.w[1].index, 2, Some(1)),
        ]
    );
    assert_eq!(layout.region.enabled, vec![(cfg.s, 0), (cfg.s, 1), (cfg.s, 2)]);
    assert!(layout.region.equalities.is_empty());
}

#[test]
fn an_empty_buffer_gives_an_empty_region() {
    let mut meta = ConstraintSystem::new();
    let gate = SubsetGate::<1>::configure(&mut meta, 0);
    let layout = gate.layout();
    assert_eq!(layout.table.len(), 1);
    assert!(layout.table[0].is_zero());
    assert!(layout.region.assignments.is_empty());
    assert!(layout.region.enabled.is_empty());
}
