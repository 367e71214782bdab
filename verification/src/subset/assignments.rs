//! The subset gate itself: it buffers witness tuples and lays out the
//! table and one row for each tuple.

use crate::field::Scalar;
use crate::plonk::ConstraintSystem;
use crate::rational::Rational;
use crate::region::{Advice, Any, Cell, Column, Region, RegionCtx, Selector};
use crate::subset::config::SubsetConfig;
use crate::witness::{deferred_scalar, values_of};
use vstd::arithmetic::power2::{lemma_pow2_strictly_increases, lemma_pow2_unfold, pow2};
use vstd::prelude::*;

verus! {

/// What this gate assigns to a cell: the components of the `row`-th tuple
/// in the witness columns, and nothing past the tuples.
pub open spec fn expected_cell(cfg: SubsetConfig, tuples: Seq<Seq<Option<nat>>>, column: Column<Any>, row: nat) -> Option<
    Option<nat>,
> {
    if row < tuples.len() && exists|j: int| 0 <= j < cfg.w@.len() && column == (#[trigger] cfg.w@[j]).any() {
        let j = choose|j: int| 0 <= j < cfg.w@.len() && column == (#[trigger] cfg.w@[j]).any();
        Some(tuples[row as int][j])
    } else {
        None
    }
}

/// Every cell that this gate assigns in its region.
pub open spec fn grid(cfg: SubsetConfig, tuples: Seq<Seq<Option<nat>>>) -> Map<(Column<Any>, nat), Option<nat>> {
    Map::new(
        |k: (Column<Any>, nat)| expected_cell(cfg, tuples, k.0, k.1) is Some,
        |k: (Column<Any>, nat)| expected_cell(cfg, tuples, k.0, k.1).unwrap(),
    )
}

/// The cells of the rows before `i`, and of row `i` the first `s` witness
/// columns.
pub open spec fn grid_until(cfg: SubsetConfig, tuples: Seq<Seq<Option<nat>>>, i: nat, s: nat) -> Map<
    (Column<Any>, nat),
    Option<nat>,
> {
    Map::new(
        |k: (Column<Any>, nat)|
            expected_cell(cfg, tuples, k.0, k.1) is Some && (k.1 < i || (k.1 == i && exists|j: int|
                0 <= j < s && j < cfg.w@.len() && k.0 == (#[trigger] cfg.w@[j]).any())),
        |k: (Column<Any>, nat)| expected_cell(cfg, tuples, k.0, k.1).unwrap(),
    )
}

/// The selector is on at the rows with a witness tuple.
pub open spec fn selector_rows(cfg: SubsetConfig, rows: nat) -> Set<(Selector, nat)> {
    Set::new(|p: (Selector, nat)| p.0 == cfg.s && p.1 < rows)
}

/// Writing witness column `s` of row `i` moves the grid one column on.
#[verifier::rlimit(50)]
proof fn lemma_grid_write(cfg: SubsetConfig, tuples: Seq<Seq<Option<nat>>>, i: nat, s: nat)
    requires
        cfg.wf(),
        i < tuples.len(),
        s < cfg.w@.len(),
    ensures
        grid_until(cfg, tuples, i, s).insert((cfg.w@[s as int].any(), i), tuples[i as int][s as int])
            == grid_until(cfg, tuples, i, s + 1),
        s + 1 == cfg.w@.len() ==> grid_until(cfg, tuples, i, s + 1) == grid_until(cfg, tuples, i + 1, 0),
{
    let column = cfg.w@[s as int].any();
    let a = grid_until(cfg, tuples, i, s).insert((column, i), tuples[i as int][s as int]);
    let b = grid_until(cfg, tuples, i, s + 1);
    assert(expected_cell(cfg, tuples, column, i) == Some(tuples[i as int][s as int]));
    assert forall|k: (Column<Any>, nat)| a.contains_key(k) <==> b.contains_key(k) by {
        if b.contains_key(k) && k.1 == i {
            let j = choose|j: int| 0 <= j < s + 1 && j < cfg.w@.len() && k.0 == (#[trigger] cfg.w@[j]).any();
            if j < s {
                assert(grid_until(cfg, tuples, i, s).contains_key(k));
            }
        }
    }
    assert(a =~= b);
    if s + 1 == cfg.w@.len() {
        assert(b =~= grid_until(cfg, tuples, i + 1, 0));
    }
}

/// A gate over `W` witness columns.
#[derive(Clone, Debug)]
pub struct SubsetGate<const W: usize> {
    cfg: SubsetConfig,
    bit_size: usize,
    witnesses: Vec<[Option<Scalar>; W]>,
}

/// What this gate lays out: the table for the host's table region, and the
/// region of the witnesses.
#[derive(Clone, Debug)]
pub struct SubsetLayout {
    /// The entries of the table column, from its first row on.
    pub table: Vec<Scalar>,
    /// The witness region.
    pub region: Region,
}

impl<const W: usize> SubsetGate<W> {
    /// What this gate declared.
    pub closed spec fn cfg(self) -> SubsetConfig {
        self.cfg
    }

    /// The table is `{0, .., 2^bit_size - 1}`.
    pub closed spec fn bit_size(self) -> nat {
        self.bit_size as nat
    }

    /// The buffered witness tuples, in the order of the lookups.
    pub closed spec fn witnesses(self) -> Seq<Seq<Option<nat>>> {
        self.witnesses@.map_values(|t: [Option<Scalar>; W]| values_of(t@))
    }

    /// The configuration is well formed and has `W` witness columns, and
    /// the length of the table fits the machine.
    pub closed spec fn wf(self) -> bool {
        &&& self.cfg.wf()
        &&& self.cfg.w@.len() == W
        &&& pow2(self.bit_size()) <= usize::MAX
    }

    /// What holds of every well-formed gate.
    pub proof fn lemma_wf(self)
        requires
            self.wf(),
        ensures
            self.cfg().wf(),
            self.cfg().w@.len() == W,
            pow2(self.bit_size()) <= usize::MAX,
            forall|i: int| 0 <= i < self.witnesses().len() ==> (#[trigger] self.witnesses()[i]).len() == W,
    {
    }

    /// The number of table entries, `2^bit_size`.
    pub open spec fn table_len(self) -> nat {
        pow2(self.bit_size())
    }

    /// Declares a gate for the table `{0, .., 2^bit_size - 1}`: `W`
    /// first-phase witness columns, then what the configuration declares
    /// over them.
    pub fn configure(meta: &mut ConstraintSystem, bit_size: usize) -> (r: Self)
        requires
            pow2(bit_size as nat) <= usize::MAX,
        ensures
            r.wf(),
            r.bit_size() == bit_size,
            r.witnesses() == Seq::<Seq<Option<nat>>>::empty(),
            forall|i: int|
                0 <= i < W ==> (#[trigger] r.cfg().w@[i]).index == old(meta).advice_phases@.len() + i
                    && r.cfg().w@[i].column_type.phase == 0,
            r.cfg().declared(old(meta).fixed_tables@, old(meta).selectors@, old(meta).lookups@, *final(meta)),
            final(meta).advice_phases@ == old(meta).advice_phases@ + Seq::new(W as nat, |i: int| 0u8),
            final(meta).challenge_phases == old(meta).challenge_phases,
            final(meta).gates == old(meta).gates,
    {
        let ghost base = old(meta).advice_phases@;
        let mut w: Vec<Column<Advice>> = Vec::new();
        let mut i: usize = 0;
        while i < W
            invariant
                0 <= i <= W,
                w@.len() == i,
                meta.advice_phases@ == base + Seq::new(i as nat, |k: int| 0u8),
                forall|k: int|
                    0 <= k < i ==> (#[trigger] w@[k]).index == base.len() + k && w@[k].column_type.phase
                        == 0,
                meta.fixed_tables == old(meta).fixed_tables,
                meta.selectors == old(meta).selectors,
                meta.challenge_phases == old(meta).challenge_phases,
                meta.gates == old(meta).gates,
                meta.lookups == old(meta).lookups,
            decreases W - i,
        {
            let column = meta.advice_column();
            w.push(column);
            i += 1;
            assert(meta.advice_phases@ =~= base + Seq::new(i as nat, |k: int| 0u8));
        }
        let cfg = SubsetConfig::configure(meta, w);
        let gate = SubsetGate { cfg, bit_size, witnesses: Vec::new() };
        assert(gate.witnesses() =~= Seq::<Seq<Option<nat>>>::empty());
        gate
    }

    /// What this gate declared.
    pub fn config(&self) -> (r: &SubsetConfig)
        ensures
            *r == self.cfg(),
    {
        &self.cfg
    }

    /// The number of buffered tuples.
    pub fn len(&self) -> (r: usize)
        ensures
            r == self.witnesses().len(),
    {
        self.witnesses.len()
    }

    /// Buffers one tuple of `W` witness values.
    pub fn lookup(&mut self, value: &[Option<Scalar>; W])
        requires
            old(self).wf(),
        ensures
            final(self).wf(),
            final(self).cfg() == old(self).cfg(),
            final(self).bit_size() == old(self).bit_size(),
            final(self).witnesses() == old(self).witnesses().push(values_of(value@)),
    {
        let ghost before = self.witnesses();
        self.witnesses.push(*value);
        assert(self.witnesses() =~= before.push(values_of(value@)));
    }

    /// The table `{0, .., 2^bit_size - 1}`, in order.
    fn table(&self) -> (r: Vec<Scalar>)
        requires
            self.wf(),
        ensures
            r@.len() == self.table_len(),
            forall|i: int| 0 <= i < r@.len() ==> (#[trigger] r@[i])@ == i,
    {
        let mut len: usize = 1;
        let mut k: usize = 0;
        proof {
            lemma_pow2_unfold(1);
            vstd::arithmetic::power2::lemma2_to64();
        }
        while k < self.bit_size
            invariant
                k <= self.bit_size,
                len == pow2(k as nat),
                pow2(self.bit_size as nat) <= usize::MAX,
            decreases self.bit_size - k,
        {
            proof {
                lemma_pow2_unfold((k + 1) as nat);
                if k + 1 < self.bit_size {
                    lemma_pow2_strictly_increases((k + 1) as nat, self.bit_size as nat);
                }
            }
            len = len * 2;
            k += 1;
        }
        let mut table: Vec<Scalar> = Vec::new();
        let mut i: usize = 0;
        while i < len
            invariant
                0 <= i <= len,
                table@.len() == i,
                forall|k: int| 0 <= k < i ==> (#[trigger] table@[k])@ == k,
            decreases len - i,
        {
            table.push(Scalar::from_u64(i as u64));
            i += 1;
        }
        table
    }

    /// Lays out this gate: the table `{0, .., 2^bit_size - 1}` for the table
    /// column, and a region in which row `i` holds the `i`-th witness tuple
    /// with the selector on.  Rows past the buffer are left unassigned.
    #[verifier::rlimit(50)]
    pub fn layout(&self) -> (r: SubsetLayout)
        requires
            self.wf(),
        ensures
            r.table@.len() == self.table_len(),
            forall|i: int| 0 <= i < r.table@.len() ==> (#[trigger] r.table@[i])@ == i,
            r.region.cells() == grid(self.cfg(), self.witnesses()),
            r.region.selectors() == selector_rows(self.cfg(), self.witnesses().len()),
            r.region.copies() == Seq::<(Cell, Cell)>::empty(),
    {
        let table = self.table();
        let ghost tuples = self.witnesses();
        let mut ctx = RegionCtx::new(Region::new());
        assert(ctx.region.cells() =~= grid_until(self.cfg, tuples, 0, 0));
        assert(ctx.region.selectors() =~= selector_rows(self.cfg, 0));
        let mut i: usize = 0;
        while i < self.witnesses.len()
            invariant
                0 <= i <= self.witnesses@.len(),
                self.wf(),
                tuples == self.witnesses(),
                ctx.offset == i,
                ctx.region.cells() == grid_until(self.cfg, tuples, i as nat, 0),
                ctx.region.selectors() == selector_rows(self.cfg, i as nat),
                ctx.region.copies() == Seq::<(Cell, Cell)>::empty(),
            decreases self.witnesses@.len() - i,
        {
            let mut j: usize = 0;
            if W == 0 {
                assert(grid_until(self.cfg, tuples, i as nat, 0) =~= grid_until(self.cfg, tuples, (i + 1) as nat, 0));
            }
            while j < W
                invariant
                    0 <= j <= W,
                    i < self.witnesses@.len(),
                    self.wf(),
                    tuples == self.witnesses(),
                    ctx.offset == i,
                    ctx.region.cells() == if j == W {
                        grid_until(self.cfg, tuples, (i + 1) as nat, 0)
                    } else {
                        grid_until(self.cfg, tuples, i as nat, j as nat)
                    },
                    ctx.region.selectors() == selector_rows(self.cfg, i as nat),
                    ctx.region.copies() == Seq::<(Cell, Cell)>::empty(),
                decreases W - j,
            {
                let value = match self.witnesses[i][j] {
                    Some(x) => Some(Rational::from_scalar(x)),
                    None => None,
                };
                proof {
                    assert(tuples[i as int][j as int] == deferred_scalar(self.witnesses@[i as int]@[j as int]));
                    lemma_grid_write(self.cfg, tuples, i as nat, j as nat);
                }
                ctx.advice(self.cfg.w[j], value);
                j += 1;
            }
            ctx.enable(self.cfg.s);
            assert(ctx.region.selectors() =~= selector_rows(self.cfg, (i + 1) as nat));
            ctx.next();
            i += 1;
        }
        assert(ctx.region.cells() =~= grid(self.cfg, tuples));
        SubsetLayout { table, region: ctx.region }
    }
}

} // verus!
