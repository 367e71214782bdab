use halo2_axiom::circuit::{Cell as HostCell, Layouter, Region as HostRegion, SimpleFloorPlanner, Value};
use halo2_axiom::dev::MockProver;
use halo2_axiom::halo2curves::bn256::Fr;
use halo2_axiom::plonk::{
    Advice as HostAdvice, Any as HostAny, Assigned, Challenge as HostChallenge, Circuit, Column as HostColumn,
    ConstraintSystem as HostSystem, Error, Expression as HostExpression, FirstPhase, Fixed as HostFixed,
    SecondPhase, Selector as HostSelector, TableColumn as HostTable, ThirdPhase, VirtualCells,
};
use halo2_axiom::poly::Rotation;
use lookup_gates::field::Scalar;
use lookup_gates::logup::assignments::LogupGate;
use lookup_gates::plonk::{ConstraintSystem, Expression};
use lookup_gates::rational::Rational;
use lookup_gates::region::{Any, Cell, Column, Region};
use lookup_gates::subset::assignments::SubsetGate;
use rand::Rng;
use rand_core::OsRng;
use std::marker::PhantomData;

fn to_fr(s: &Scalar) -> Fr {
    Fr::from_raw(s.to_limbs())
}

fn to_scalar(f: Fr) -> Scalar {
    let limbs: [u64; 4] = f.into();
    Scalar::from_limbs(limbs).unwrap()
}

fn to_deferred(v: Value<Fr>) -> Option<Scalar> {
    let mut known = None;
    v.map(|f| known = Some(to_scalar(f)));
    known
}

fn to_assigned(r: &Rational) -> Assigned<Fr> {
    Assigned::Rational(to_fr(&r.numerator), to_fr(&r.denominator))
}

fn to_value(v: &Option<Rational>) -> Value<Assigned<Fr>> {
    match v {
        Some(r) => Value::known(to_assigned(r)),
        None => Value::unknown(),
    }
}

fn deferred<const W: usize>(value: &[Value<Fr>; W]) -> [Option<Scalar>; W] {
    let mut tuple = [None; W];
    for (slot, v) in tuple.iter_mut().zip(value.iter()) {
        *slot = to_deferred(*v);
    }
    tuple
}

#[derive(Clone, Debug, Default)]
struct Host {
    advice: Vec<HostColumn<HostAdvice>>,
    fixed: Vec<HostColumn<HostFixed>>,
    tables: Vec<Option<HostTable>>,
    selectors: Vec<HostSelector>,
    challenges: Vec<HostChallenge>,
}

impl Host {
    fn declare(meta: &mut HostSystem<Fr>, system: &ConstraintSystem) -> Host {
        let mut host = Host::default();
        for phase in system.advice_phases.iter() {
            host.advice.push(match phase {
                0 => meta.advice_column_in(FirstPhase),
                1 => meta.advice_column_in(SecondPhase),
                _ => meta.advice_column_in(ThirdPhase),
            });
        }
        for is_table in system.fixed_tables.iter() {
            if *is_table {
                let table = meta.lookup_table_column();
                host.fixed.push(table.inner());
                host.tables.push(Some(table));
            } else {
                host.fixed.push(meta.fixed_column());
                host.tables.push(None);
            }
        }
        for simple in system.selectors.iter() {
            host.selectors.push(if *simple { meta.selector() } else { meta.complex_selector() });
        }
        for phase in system.challenge_phases.iter() {
            host.challenges.push(match phase {
                0 => meta.challenge_usable_after(FirstPhase),
                1 => meta.challenge_usable_after(SecondPhase),
                _ => meta.challenge_usable_after(ThirdPhase),
            });
        }
        for gate in system.gates.iter() {
            meta.create_gate(gate.name, |cells| vec![host.expression(&gate.poly, cells)]);
        }
        for lookup in system.lookups.iter() {
            let table = host.tables[lookup.table.inner.index].unwrap();
            meta.lookup(lookup.name, |cells| vec![(host.expression(&lookup.input, cells), table)]);
        }
        host
    }

    fn expression(&self, e: &Expression, cells: &mut VirtualCells<'_, Fr>) -> HostExpression<Fr> {
        match e {
            Expression::Constant(c) => HostExpression::Constant(to_fr(c)),
            Expression::Selector(s) => cells.query_selector(self.selectors[s.index]),
            Expression::Fixed { column, rotation } => {
                cells.query_fixed(self.fixed[column.index], Rotation(*rotation))
            }
            Expression::Advice { column, rotation } => {
                cells.query_advice(self.advice[column.index], Rotation(*rotation))
            }
            Expression::Challenge(c) => cells.query_challenge(self.challenges[c.index]),
            Expression::Negated(a) => -self.expression(a, cells),
            Expression::Sum(a, b) => self.expression(a, cells) + self.expression(b, cells),
            Expression::Product(a, b) => self.expression(a, cells) * self.expression(b, cells),
        }
    }

    fn column(&self, column: &Column<Any>) -> HostColumn<HostAny> {
        match column.column_type {
            Any::Advice(_) => self.advice[column.index].into(),
            Any::Fixed => self.fixed[column.index].into(),
            Any::Instance => panic!("Cannot assign to instance column"),
        }
    }

    fn cell(&self, cell: &Cell) -> HostCell {
        HostCell { row_offset: cell.row_offset, column: self.column(&cell.column) }
    }

    fn assign(&self, region: &mut HostRegion<'_, Fr>, content: &Region) -> Result<(), Error> {
        for assigned in content.assignments.iter() {
            let offset = assigned.cell.row_offset;
            match assigned.cell.column.column_type {
                Any::Advice(_) => {
                    let column = self.advice[assigned.cell.column.index];
                    region.assign_advice(column, offset, to_value(&assigned.value));
                }
                Any::Fixed => {
                    let column = self.fixed[assigned.cell.column.index];
                    region.assign_fixed(column, offset, to_assigned(assigned.value.as_ref().unwrap()));
                }
                Any::Instance => panic!("Cannot assign to instance column"),
            }
        }
        for (selector, offset) in content.enabled.iter() {
            self.selectors[selector.index].enable(region, *offset)?;
        }
        for (left, right) in content.equalities.iter() {
            region.constrain_equal(self.cell(left), self.cell(right));
        }
        Ok(())
    }
}

trait LookupGate<const W: usize>: Clone {
    fn configure(meta: &mut HostSystem<Fr>, bit_size: usize) -> Self;
    fn lookup(&mut self, value: &[Value<Fr>; W]);
    fn layout(&self, ly: &mut impl Layouter<Fr>) -> Result<(), Error>;
}

/// This gate whose layout refuses a running sum that is not zero.
#[derive(Clone)]
struct Logup<const W: usize, const K: usize> {
    gate: LogupGate<W, K>,
    host: Host,
}

/// The same gate, laid out whatever the running sum: the prover decides.
#[derive(Clone)]
struct LogupUnchecked<const W: usize, const K: usize>(Logup<W, K>);

#[derive(Clone)]
struct Subset<const W: usize> {
    gate: SubsetGate<W>,
    host: Host,
}

impl<const W: usize, const K: usize> Logup<W, K> {
    fn alpha(&self, ly: &impl Layouter<Fr>) -> Option<Scalar> {
        to_deferred(ly.get_challenge(self.host.challenges[self.gate.config().alpha.index]))
    }
}

impl<const W: usize, const K: usize> LookupGate<W> for Logup<W, K> {
    fn configure(meta: &mut HostSystem<Fr>, bit_size: usize) -> Self {
        assert!(W >= 1 && K > bit_size);
        let mut system = ConstraintSystem::new();
        let gate = LogupGate::configure(&mut system, bit_size);
        let host = Host::declare(meta, &system);
        Logup { gate, host }
    }

    fn lookup(&mut self, value: &[Value<Fr>; W]) {
        self.gate.lookup(&deferred(value));
    }

    fn layout(&self, ly: &mut impl Layouter<Fr>) -> Result<(), Error> {
        let content = self.gate.layout(self.alpha(ly)).expect("the running sum is zero");
        ly.assign_region(|| "assign", |mut region| self.host.assign(&mut region, &content))
    }
}

impl<const W: usize, const K: usize> LookupGate<W> for LogupUnchecked<W, K> {
    fn configure(meta: &mut HostSystem<Fr>, bit_size: usize) -> Self {
        LogupUnchecked(Logup::configure(meta, bit_size))
    }

    fn lookup(&mut self, value: &[Value<Fr>; W]) {
        self.0.lookup(value);
    }

    fn layout(&self, ly: &mut impl Layouter<Fr>) -> Result<(), Error> {
        let (content, _) = self.0.gate.assign(self.0.alpha(ly));
        ly.assign_region(|| "assign", |mut region| self.0.host.assign(&mut region, &content))
    }
}

impl<const W: usize> LookupGate<W> for Subset<W> {
    fn configure(meta: &mut HostSystem<Fr>, bit_size: usize) -> Self {
        let mut system = ConstraintSystem::new();
        let gate = SubsetGate::configure(&mut system, bit_size);
        let host = Host::declare(meta, &system);
        Subset { gate, host }
    }

    fn lookup(&mut self, value: &[Value<Fr>; W]) {
        self.gate.lookup(&deferred(value));
    }

    fn layout(&self, ly: &mut impl Layouter<Fr>) -> Result<(), Error> {
        let content = self.gate.layout();
        let column = self.host.tables[self.gate.config().t.inner.index].unwrap();
        ly.assign_table(
            || "",
            |mut table| {
                for (offset, value) in content.table.iter().enumerate() {
                    table.assign_cell(|| "table value", column, offset, || Value::known(to_fr(value)))?;
                }
                Ok(())
            },
        )?;
        ly.assign_region(|| "assign", |mut region| self.host.assign(&mut region, &content.region))
    }
}

#[derive(Default, Clone, Debug)]
struct Params {
    bit_size: usize,
}

/// Looks up the given tuples, or, where none are given,
/// `lookups_per_column` tuples of random table values.
struct TestCircuit<Gate: LookupGate<W>, const W: usize> {
    marker: PhantomData<Gate>,
    bit_size: usize,
    lookups_per_column: usize,
    tuples: Vec<[u64; W]>,
}

impl<Gate: LookupGate<W>, const W: usize> Circuit<Fr> for TestCircuit<Gate, W> {
    type Config = Gate;
    type FloorPlanner = SimpleFloorPlanner;
    type Params = Params;

    fn without_witnesses(&self) -> Self {
        Self {
            bit_size: self.bit_size,
            lookups_per_column: self.lookups_per_column,
            tuples: self.tuples.clone(),
            marker: PhantomData,
        }
    }

    fn configure_with_params(meta: &mut HostSystem<Fr>, params: Self::Params) -> Self::Config {
        Gate::configure(meta, params.bit_size)
    }

    fn configure(_: &mut HostSystem<Fr>) -> Self::Config {
        unreachable!()
    }

    fn synthesize(&self, mut gate: Self::Config, mut ly: impl Layouter<Fr>) -> Result<(), Error> {
        let table_size: u64 = 1 << self.bit_size;
        for tuple in self.tuples.iter() {
            gate.lookup(&tuple.map(|v| Value::known(Fr::from(v))));
        }
        if self.tuples.is_empty() {
            for _ in 0..self.lookups_per_column {
                let mut tuple = [Value::unknown(); W];
                for w in tuple.iter_mut() {
                    *w = Value::known(Fr::from(OsRng.gen_range(0..table_size)));
                }
                gate.lookup(&tuple);
            }
        }
        gate.layout(&mut ly)?;
        Ok(())
    }

    fn params(&self) -> Self::Params {
        Params { bit_size: self.bit_size }
    }
}

fn run_test_lookup<Gate: LookupGate<W>, const W: usize>(k: u32, bit_size: usize, lookups_per_column: usize) {
    let circuit = TestCircuit::<Gate, W> { marker: PhantomData, bit_size, lookups_per_column, tuples: vec![] };
    let prover = match MockProver::run(k, &circuit, vec![]) {
        Ok(prover) => prover,
        Err(e) => panic!("{:#?}", e),
    };
    prover.assert_satisfied();
}

fn satisfied<Gate: LookupGate<1>>(k: u32, bit_size: usize, values: &[u64]) -> bool {
    let tuples: Vec<[u64; 1]> = values.iter().map(|v| [*v]).collect();
    let circuit = TestCircuit::<Gate, 1> { marker: PhantomData, bit_size, lookups_per_column: 0, tuples };
    MockProver::run(k, &circuit, vec![]).unwrap().verify().is_ok()
}

fn nine_from_the_table() -> Vec<u64> {
    (0..9).map(|_| OsRng.gen_range(0..8u64)).collect()
}

#[test]
fn test_lookup() {
    run_test_lookup::<Logup<10, 10>, 10>(10, 5, 1 << 6);
    run_test_lookup::<Logup<10, 10>, 10>(10, 5, 1 << 3);
    run_test_lookup::<Subset<10>, 10>(10, 5, 1 << 6);
    run_test_lookup::<Subset<10>, 10>(10, 5, 1 << 3);
}

#[test]
fn nine_lookups_in_a_table_of_eight_are_accepted() {
    let values = nine_from_the_table();
    assert!(satisfied::<Logup<1, 6>>(6, 3, &values));
    assert!(satisfied::<LogupUnchecked<1, 6>>(6, 3, &values));
    assert!(satisfied::<Subset<1>>(6, 3, &values));
}

#[test]
fn a_lookup_of_eight_is_rejected_by_the_logup_constraints() {
    let mut values = nine_from_the_table();
    values[4] = 8;
    assert!(!satisfied::<LogupUnchecked<1, 6>>(6, 3, &values));
}

#[test]
fn a_lookup_of_eight_is_rejected_by_the_subset_constraints() {
    let mut values = nine_from_the_table();
    values[4] = 8;
    assert!(!satisfied::<Subset<1>>(6, 3, &values));
}

#[test]
fn a_wide_gate_with_more_tuples_than_table_entries_is_accepted() {
    let tuples: Vec<[u64; 3]> = (0..7u64).map(|i| [i % 4, (i + 1) % 4, 3]).collect();
    let circuit =
        TestCircuit::<Logup<3, 6>, 3> { marker: PhantomData, bit_size: 2, lookups_per_column: 0, tuples };
    MockProver::run(6, &circuit, vec![]).unwrap().assert_satisfied();
}
