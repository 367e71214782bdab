use halo2_axiom::halo2curves::bn256::Fr;
use halo2_axiom::plonk::Assigned;
use lookup_gates::field::Scalar;
use lookup_gates::logup::assignments::{LayoutError, LogupGate};
use lookup_gates::plonk::ConstraintSystem;
use lookup_gates::rational::Rational;
use lookup_gates::region::{Any, Column, Region, Selector};

fn limbs(f: Fr) -> [u64; 4] {
    f.into()
}

/// The field element that a fraction stands for.
fn eval(r: Rational) -> [u64; 4] {
    let fraction = Assigned::Rational(Fr::from_raw(r.numerator.to_limbs()), Fr::from_raw(r.denominator.to_limbs()));
    fraction.evaluate().into()
}

fn inverse(x: u64) -> Fr {
    Fr::from(x).invert().unwrap()
}

/// The field element that the last write left in a cell.
fn cell(region: &Region, column: Column<Any>, row: usize) -> Option<Option<[u64; 4]>> {
    region
        .assignments
        .iter()
        .rev()
        .find(|a| a.cell.column == column && a.cell.row_offset == row)
        .map(|a| a.value.map(eval))
}

fn rows_of(region: &Region, selector: Selector) -> Vec<usize> {
    let mut rows: Vec<usize> =
        region.enabled.iter().filter(|(s, _)| *s == selector).map(|(_, r)| *r).collect();
    rows.sort();
    rows.dedup();
    rows
}

fn known(v: u64) -> Option<Scalar> {
    Some(Scalar::from_u64(v))
}

#[test]
fn the_gate_declares_its_columns_and_identities() {
    let mut meta = ConstraintSystem::new();
    let gate = LogupGate::<2, 8>::configure(&mut meta, 3);
    let cfg = gate.config();
    assert_eq!(meta.advice_phases, vec![0, 0, 1, 1, 1, 1, 1]);
    assert_eq!(meta.fixed_tables, vec![false]);
    assert_eq!(meta.selectors, vec![true, true, false, false]);
    assert_eq!(meta.challenge_phases, vec![0]);
    assert_eq!(cfg.w.iter().map(|c| c.index).collect::<Vec<_>>(), vec![0, 1]);
    assert_eq!(cfg.m.index, 2);
    assert_eq!(cfg.t_helper.index, 3);
    assert_eq!(cfg.w_helper.iter().map(|c| c.index).collect::<Vec<_>>(), vec![4, 5]);
    assert_eq!(cfg.acc.index, 6);
    assert_eq!(cfg.t.index, 0);
    assert_eq!((cfg.s_zero.index, cfg.s_acc.index, cfg.s_table.index, cfg.s_witness.index), (0, 1, 2, 3));
    let names: Vec<&str> = meta.gates.iter().map(|g| g.name).collect();
    assert_eq!(names, vec!["t-helper", "w-helper", "w-helper", "grand sum", "zero acc"]);
    assert!(meta.lookups.is_empty());
    assert_eq!(gate.len(), 0);
}

#[test]
fn a_small_layout_holds_the_expected_cells() {
    // Table {0, 1}, one witness column, the one lookup 1, challenge 5.
    let mut meta = ConstraintSystem::new();
    let mut gate = LogupGate::<1, 4>::configure(&mut meta, 1);
    gate.lookup(&[known(1)]);
    let cfg = gate.config().clone();
    let region = gate.layout(known(5)).unwrap();
    let (acc, t, th, m) = (cfg.acc.to_any(), cfg.t.to_any(), cfg.t_helper.to_any(), cfg.m.to_any());
    let (w, wh) = (cfg.w[0].to_any(), cfg.w_helper[0].to_any());

    // row 0: table entry 0, never witnessed; the witness 1
    assert_eq!(cell(&region, acc, 0), Some(Some([0, 0, 0, 0])));
    assert_eq!(cell(&region, t, 0), Some(Some([0, 0, 0, 0])));
    assert_eq!(cell(&region, th, 0), Some(Some(limbs(inverse(5)))));
    assert_eq!(cell(&region, m, 0), Some(Some([0, 0, 0, 0])));
    assert_eq!(cell(&region, w, 0), Some(Some([1, 0, 0, 0])));
    assert_eq!(cell(&region, wh, 0), Some(Some(limbs(inverse(4)))));
    // row 1: table entry 1, witnessed once; no witness left
    assert_eq!(cell(&region, acc, 1), Some(Some(limbs(-inverse(4)))));
    assert_eq!(cell(&region, t, 1), Some(Some([1, 0, 0, 0])));
    assert_eq!(cell(&region, th, 1), Some(Some(limbs(inverse(4)))));
    assert_eq!(cell(&region, m, 1), Some(Some([1, 0, 0, 0])));
    assert_eq!(cell(&region, w, 1), Some(Some([0, 0, 0, 0])));
    assert_eq!(cell(&region, wh, 1), Some(Some([0, 0, 0, 0])));
    // the final sum
    assert_eq!(cell(&region, acc, 2), Some(Some([0, 0, 0, 0])));
    assert_eq!(cell(&region, t, 2), None);
    assert_eq!(cell(&region, acc, 3), None);
    assert_eq!(region.assignments.len(), 13);

    assert_eq!(rows_of(&region, cfg.s_zero), vec![0, 2]);
    assert_eq!(rows_of(&region, cfg.s_acc), vec![0, 1]);
    assert_eq!(rows_of(&region, cfg.s_table), vec![0, 1]);
    assert_eq!(rows_of(&region, cfg.s_witness), vec![0]);
    assert!(region.equalities.is_empty());
}

#[test]
fn helpers_are_kept_as_unreduced_fractions() {
    let mut meta = ConstraintSystem::new();
    let mut gate = LogupGate::<1, 4>::configure(&mut meta, 1);
    gate.lookup(&[known(1)]);
    let cfg = gate.config().clone();
    let region = gate.layout(known(5)).unwrap();
    let fraction = |column: Column<Any>, row: usize| {
        let written = region.assignments.iter().find(|a| a.cell.column == column && a.cell.row_offset == row);
        let value = written.unwrap().value.unwrap();
        (value.numerator.to_limbs(), value.denominator.to_limbs())
    };
    assert_eq!(fraction(cfg.t_helper.to_any(), 0), ([1, 0, 0, 0], [5, 0, 0, 0]));
    assert_eq!(fraction(cfg.t_helper.to_any(), 1), ([1, 0, 0, 0], [4, 0, 0, 0]));
    assert_eq!(fraction(cfg.w_helper[0].to_any(), 0), ([1, 0, 0, 0], [4, 0, 0, 0]));
    assert_eq!(fraction(cfg.w_helper[0].to_any(), 1), ([0, 0, 0, 0], [1, 0, 0, 0]));

    // alpha - x wraps around below zero
    let region = gate.layout(known(0)).unwrap();
    let written = region
        .assignments
        .iter()
        .find(|a| a.cell.column == cfg.w_helper[0].to_any() && a.cell.row_offset == 0)
        .unwrap();
    assert_eq!(written.value.unwrap().denominator.to_limbs(), limbs(-Fr::from(1)));
}

#[test]
fn a_row_subtracts_the_helper_of_each_of_its_components() {
    // Table {0, 1}, two witness columns, the one lookup (0, 1), challenge 5.
    let mut meta = ConstraintSystem::new();
    let mut gate = LogupGate::<2, 4>::configure(&mut meta, 1);
    gate.lookup(&[known(0), known(1)]);
    let acc = gate.config().acc.to_any();
    let region = gate.layout(known(5)).unwrap();
    let acc_1 = inverse(5) * Fr::from(1) - inverse(5) - inverse(4);
    assert_eq!(cell(&region, acc, 1), Some(Some(limbs(acc_1))));
    assert_eq!(limbs(acc_1), limbs(-inverse(4)));
    assert_eq!(cell(&region, acc, 2), Some(Some([0, 0, 0, 0])));
}

#[test]
fn the_running_sum_follows_the_step_rule() {
    // Table {0, 1}, lookups 0, 1, 1, challenge 7:
    // acc_1 = 2/7 - 1/7... in general acc' = acc + m * t_helper - w_helper.
    let mut meta = ConstraintSystem::new();
    let mut gate = LogupGate::<1, 4>::configure(&mut meta, 1);
    for v in [0, 1, 1] {
        gate.lookup(&[known(v)]);
    }
    let acc = gate.config().acc.to_any();
    let (region, last) = gate.assign(known(7));
    let acc_1 = inverse(7) * Fr::from(1) - inverse(7);
    let acc_2 = acc_1 + inverse(6) * Fr::from(2) - inverse(6);
    let acc_3 = acc_2 - inverse(6);
    assert_eq!(cell(&region, acc, 0), Some(Some([0, 0, 0, 0])));
    assert_eq!(cell(&region, acc, 1), Some(Some(limbs(acc_1))));
    assert_eq!(cell(&region, acc, 2), Some(Some(limbs(acc_2))));
    assert_eq!(cell(&region, acc, 3), Some(Some(limbs(acc_3))));
    assert_eq!(limbs(acc_3), [0, 0, 0, 0]);
    assert_eq!(eval(last.unwrap()), [0, 0, 0, 0]);
}

#[test]
fn witnesses_in_the_table_balance_for_any_challenge() {
    for alpha in [0u64, 1, 2, 3, 1000, u64::MAX] {
        let mut meta = ConstraintSystem::new();
        let mut gate = LogupGate::<3, 8>::configure(&mut meta, 2);
        for tuple in [[0, 1, 2], [3, 3, 3], [1, 0, 1], [2, 2, 0], [3, 1, 1]] {
            gate.lookup(&[known(tuple[0]), known(tuple[1]), known(tuple[2])]);
        }
        let (_, last) = gate.assign(known(alpha));
        assert_eq!(eval(last.unwrap()), [0, 0, 0, 0]);
        assert!(gate.layout(known(alpha)).is_ok());
    }
}

#[test]
fn a_witness_outside_the_table_is_refused() {
    let mut meta = ConstraintSystem::new();
    let mut gate = LogupGate::<1, 8>::configure(&mut meta, 3);
    for v in [0, 1, 2, 3, 8, 5, 6, 7, 7] {
        gate.lookup(&[known(v)]);
    }
    assert_eq!(gate.layout(known(123456789)).err(), Some(LayoutError::Unbalanced));
    let (region, last) = gate.assign(known(123456789));
    assert_ne!(eval(last.unwrap()), [0, 0, 0, 0]);
    assert_eq!(region.assignments.iter().filter(|a| a.cell.column == gate.config().acc.to_any()).count(), 10);
}

#[test]
fn an_unknown_challenge_defers_the_helpers_and_the_sum() {
    let mut meta = ConstraintSystem::new();
    let mut gate = LogupGate::<1, 8>::configure(&mut meta, 1);
    gate.lookup(&[known(9)]);
    let cfg = gate.config().clone();
    let region = gate.layout(None).unwrap();
    assert_eq!(cell(&region, cfg.acc.to_any(), 0), Some(Some([0, 0, 0, 0])));
    assert_eq!(cell(&region, cfg.acc.to_any(), 1), Some(None));
    assert_eq!(cell(&region, cfg.acc.to_any(), 2), Some(None));
    assert_eq!(cell(&region, cfg.t_helper.to_any(), 0), Some(None));
    assert_eq!(cell(&region, cfg.w_helper[0].to_any(), 0), Some(None));
    assert_eq!(cell(&region, cfg.w[0].to_any(), 0), Some(Some([9, 0, 0, 0])));
    assert_eq!(cell(&region, cfg.m.to_any(), 0), Some(Some([0, 0, 0, 0])));
    assert_eq!(cell(&region, cfg.t.to_any(), 1), Some(Some([1, 0, 0, 0])));
}

#[test]
fn an_unknown_witness_is_buffered_but_not_counted() {
    let mut meta = ConstraintSystem::new();
    let mut gate = LogupGate::<2, 8>::configure(&mut meta, 1);
    gate.lookup(&[known(1), None]);
    gate.lookup(&[None, known(1)]);
    assert_eq!(gate.len(), 2);
    let cfg = gate.config().clone();
    let (region, last) = gate.assign(known(3));
    assert_eq!(cell(&region, cfg.m.to_any(), 0), Some(Some([0, 0, 0, 0])));
    assert_eq!(cell(&region, cfg.m.to_any(), 1), Some(Some([2, 0, 0, 0])));
    assert_eq!(cell(&region, cfg.w[1].to_any(), 0), Some(None));
    assert_eq!(cell(&region, cfg.w_helper[1].to_any(), 0), Some(None));
    assert_eq!(cell(&region, cfg.w_helper[0].to_any(), 0), Some(Some(limbs(inverse(2)))));
    assert!(last.is_none());
    assert!(gate.layout(known(3)).is_ok());
}

#[test]
fn the_layout_has_as_many_rows_as_the_longer_of_table_and_buffer() {
    // The table is longer: 4 entries, 1 tuple.
    let mut meta = ConstraintSystem::new();
    let mut gate = LogupGate::<2, 8>::configure(&mut meta, 2);
    gate.lookup(&[known(2), known(3)]);
    let cfg = gate.config().clone();
    let region = gate.layout(known(11)).unwrap();
    assert_eq!(rows_of(&region, cfg.s_acc), vec![0, 1, 2, 3]);
    assert_eq!(rows_of(&region, cfg.s_table), vec![0, 1, 2, 3]);
    assert_eq!(rows_of(&region, cfg.s_witness), vec![0]);
    assert_eq!(rows_of(&region, cfg.s_zero), vec![0, 4]);
    for row in 1..4 {
        for j in 0..2 {
            assert_eq!(cell(&region, cfg.w[j].to_any(), row), Some(Some([0, 0, 0, 0])));
            assert_eq!(cell(&region, cfg.w_helper[j].to_any(), row), Some(Some([0, 0, 0, 0])));
        }
    }
    assert_eq!(cell(&region, cfg.acc.to_any(), 4), Some(Some([0, 0, 0, 0])));
    assert_eq!(cell(&region, cfg.acc.to_any(), 5), None);

    // The buffer is longer: 2 entries, 5 tuples.
    let mut meta = ConstraintSystem::new();
    let mut gate = LogupGate::<1, 8>::configure(&mut meta, 1);
    for v in [0, 1, 0, 1, 1] {
        gate.lookup(&[known(v)]);
    }
    let cfg = gate.config().clone();
    let region = gate.layout(known(11)).unwrap();
    assert_eq!(rows_of(&region, cfg.s_acc), vec![0, 1, 2, 3, 4]);
    assert_eq!(rows_of(&region, cfg.s_table), vec![0, 1]);
    assert_eq!(rows_of(&region, cfg.s_witness), vec![0, 1, 2, 3, 4]);
    assert_eq!(rows_of(&region, cfg.s_zero), vec![0, 5]);
    for row in 2..5 {
        assert_eq!(cell(&region, cfg.t.to_any(), row), None);
        assert_eq!(cell(&region, cfg.t_helper.to_any(), row), Some(Some([0, 0, 0, 0])));
        assert_eq!(cell(&region, cfg.m.to_any(), row), Some(Some([0, 0, 0, 0])));
    }
}

#[test]
fn the_multiplicities_add_up_to_the_witness_cells() {
    let mut meta = ConstraintSystem::new();
    let mut gate = LogupGate::<3, 8>::configure(&mut meta, 2);
    let tuples = [[0, 1, 2], [3, 3, 3], [1, 0, 1], [2, 2, 0]];
    for tuple in tuples {
        gate.lookup(&[known(tuple[0]), known(tuple[1]), known(tuple[2])]);
    }
    let m = gate.config().m.to_any();
    let region = gate.layout(known(99)).unwrap();
    let counts: Vec<u64> = (0..4).map(|row| cell(&region, m, row).unwrap().unwrap()[0]).collect();
    assert_eq!(counts, vec![3, 3, 3, 3]);
    assert_eq!(counts.iter().sum::<u64>(), (tuples.len() * 3) as u64);
}

#[test]
fn a_large_witness_is_counted_apart_from_the_table() {
    // 2^64 + 1 shares its lowest limb with the table entry 1.
    let large = Scalar::from_limbs([1, 1, 0, 0]);
    let mut meta = ConstraintSystem::new();
    let mut gate = LogupGate::<1, 8>::configure(&mut meta, 1);
    gate.lookup(&[large]);
    let m = gate.config().m.to_any();
    let (region, last) = gate.assign(known(3));
    assert_eq!(cell(&region, m, 1), Some(Some([0, 0, 0, 0])));
    assert_ne!(eval(last.unwrap()), [0, 0, 0, 0]);
}
