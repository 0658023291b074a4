//! A cell: its pools, its behaviour units and the steps of one tick.
//!
//! A tick is driven from outside in three steps, because each unit's gate is
//! the squashed value of its sensitivity genome in the cell's state at that
//! moment: [`Cell::begin_tick`], then for each unit in order
//! [`Cell::gate_input`] and [`Cell::run_unit`] with the squashed gate, then
//! [`Cell::finish_tick`] with the results.
use vstd::prelude::*;
use crate::fixed::{ONE, clamp_int};
use crate::chem::{ChemicalState, SIZE_CAP};
use crate::genome::{WeightList, activation_input, winner};
use crate::behavior::{
    BehaviorKind, BehaviorUnit, CellData, ComponentBuilderProps, Draw, Role, SpawnRequest,
    TickResult, Velocity, catalog, register_component_builders, VELOCITY_CAP, built_from,
};
use crate::rna::RNA;

verus! {

/// Energy at or below which a cell is dying.
pub const DEATH_THRESHOLD: i64 = 100_000;

/// Energy of a new cell.
pub const START_ENERGY: i64 = 1_000_000;

/// The data of a new cell: one unit of energy, every other pool empty, no
/// polymers or signals, at rest, nothing queued.
pub open spec fn fresh_data(d: CellData) -> bool {
    &&& d.pools.energy == START_ENERGY
    &&& d.pools.energy_storage == 0
    &&& d.pools.sugar == 0
    &&& d.pools.sugar_storage == 0
    &&& d.pools.sugar_difficulty == 0
    &&& d.pools.amino_acids == 0
    &&& d.pools.proteins == 0
    &&& d.pools.polymers@.len() == 0
    &&& d.pools.signals@.len() == 0
    &&& d.velocity == (Velocity { x: 0, y: 0 })
    &&& d.spawn_queue@.len() == 0
}

/// A cell. Units run internal first, then boundary, each in injection order.
#[derive(Debug)]
pub struct Cell {
    pub internal_units: Vec<BehaviorUnit>,
    pub boundary_units: Vec<BehaviorUnit>,
    pub data: CellData,
    pub genome: WeightList,
}

pub open spec fn units_ok(s: Seq<BehaviorUnit>) -> bool {
    forall|i: int| 0 <= i < s.len() ==> (#[trigger] s[i]).wf()
}

pub open spec fn units_total(s: Seq<BehaviorUnit>, m: int) -> int
    decreases m,
{
    if m <= 0 { 0 } else { units_total(s, m - 1) + s[m - 1].declared_size }
}

/// The units spawned by a sequence of tick results, in order.
pub open spec fn spawned_units(r: Seq<TickResult>, m: int) -> Seq<BehaviorUnit>
    decreases m,
{
    if m <= 0 {
        Seq::empty()
    } else {
        spawned_units(r, m - 1) + match r[m - 1].spawned {
            Some(v) => v@,
            None => Seq::empty(),
        }
    }
}

/// A list after its units' results: each unit replaced where its result says
/// so, then the spawned units appended.
pub open spec fn after_results(list: Seq<BehaviorUnit>, r: Seq<TickResult>) -> Seq<BehaviorUnit> {
    Seq::new(
        list.len(),
        |i: int|
            match r[i].replacement {
                Some(u) => u,
                None => list[i],
            },
    ) + spawned_units(r, r.len() as int)
}

/// Every unit that a result hands back is well formed.
pub open spec fn results_ok(r: Seq<TickResult>) -> bool {
    forall|i: int|
        0 <= i < r.len() ==> {
            &&& (#[trigger] r[i]).replacement matches Some(u) ==> u.wf()
            &&& r[i].spawned matches Some(v) ==> units_ok(v@)
        }
}

proof fn lemma_spawned_ok(r: Seq<TickResult>, m: int)
    requires
        results_ok(r),
        0 <= m <= r.len(),
    ensures
        units_ok(spawned_units(r, m)),
    decreases m,
{
    if m > 0 {
        lemma_spawned_ok(r, m - 1);
        assert(results_ok(r) ==> (r[m - 1].spawned matches Some(v) ==> units_ok(v@)));
    }
}

/// Applies the results of one tick of the units of `list`, result `i`
/// belonging to unit `i`.
pub fn run_components(list: &mut Vec<BehaviorUnit>, results: Vec<TickResult>)
    requires
        results@.len() == old(list)@.len(),
        units_ok(old(list)@),
        results_ok(results@),
    ensures
        final(list)@ == after_results(old(list)@, results@),
        units_ok(final(list)@),
{
    let ghost orig = list@;
    let ghost all = results@;
    let n = list.len();
    let mut rest = results;
    let mut fresh: Vec<BehaviorUnit> = Vec::new();
    let mut i: usize = 0;
    while i < n
        invariant
            0 <= i <= n,
            n == orig.len(),
            all.len() == n,
            list@.len() == n,
            rest@ == all.subrange(i as int, n as int),
            forall|m: int|
                0 <= m < i ==> #[trigger] list@[m] == match all[m].replacement {
                    Some(u) => u,
                    None => orig[m],
                },
            forall|m: int| i <= m < n ==> #[trigger] list@[m] == orig[m],
            fresh@ == spawned_units(all, i as int),
        decreases n - i,
    {
        let r = rest.remove(0);
        assert(r == all[i as int]);
        let TickResult { replacement, spawned } = r;
        match replacement {
            Some(u) => {
                list.set(i, u);
            },
            None => {},
        }
        match spawned {
            Some(v) => {
                let mut v = v;
                fresh.append(&mut v);
            },
            None => {},
        }
        assert(rest@ =~= all.subrange(i + 1, n as int));
        i += 1;
    }
    let ghost before = list@;
    list.append(&mut fresh);
    proof {
        lemma_spawned_ok(all, n as int);
        assert(list@ =~= after_results(orig, all));
        assert forall|m: int| 0 <= m < list@.len() implies (#[trigger] list@[m]).wf() by {
            if m < n {
                assert(results_ok(all) ==> (all[m].replacement matches Some(u) ==> u.wf()));
            } else {
                assert(list@[m] == spawned_units(all, n as int)[m - n]);
            }
        }
    }
}

impl Cell {
    /// All units in running order: internal, then boundary.
    pub open spec fn units(&self) -> Seq<BehaviorUnit> {
        self.internal_units@ + self.boundary_units@
    }

    pub open spec fn wf(&self) -> bool {
        &&& self.data.wf()
        &&& self.genome.wf()
        &&& units_ok(self.internal_units@)
        &&& units_ok(self.boundary_units@)
    }

    /// Size: the weighted bulk of the pools plus the declared sizes of all
    /// units, bounded by `SIZE_CAP` either way.
    pub open spec fn spec_size(&self) -> int {
        clamp_int(
            self.data.pools@.volume() + units_total(self.units(), self.units().len() as int),
            -SIZE_CAP,
            SIZE_CAP as int,
        )
    }

    /// A cell with the given genome and no units: one unit of energy, every
    /// other pool empty, at rest.
    pub fn with_genome(genome: WeightList) -> (r: Cell)
        requires
            genome.wf(),
        ensures
            r.wf(),
            r.genome@ == genome@,
            r.internal_units@.len() == 0,
            r.boundary_units@.len() == 0,
            fresh_data(r.data),
    {
        let pools = ChemicalState {
            energy: START_ENERGY,
            energy_storage: 0,
            sugar: 0,
            sugar_storage: 0,
            sugar_difficulty: 0,
            polymers: Vec::new(),
            signals: Vec::new(),
            amino_acids: 0,
            proteins: 0,
        };
        Cell {
            internal_units: Vec::new(),
            boundary_units: Vec::new(),
            data: CellData { pools, velocity: Velocity { x: 0, y: 0 }, spawn_queue: Vec::new() },
            genome,
        }
    }

    /// Adds a unit to the list of its role.
    pub fn inject_component(&mut self, unit: BehaviorUnit)
        requires
            old(self).wf(),
            unit.wf(),
        ensures
            final(self).wf(),
            final(self).genome@ == old(self).genome@,
            final(self).data == old(self).data,
            unit.kind.spec_role() == Role::Internal ==> final(self).internal_units@
                == old(self).internal_units@.push(unit) && final(self).boundary_units@
                == old(self).boundary_units@,
            unit.kind.spec_role() == Role::Boundary ==> final(self).boundary_units@
                == old(self).boundary_units@.push(unit) && final(self).internal_units@
                == old(self).internal_units@,
    {
        match unit.kind.role() {
            Role::Internal => self.internal_units.push(unit),
            Role::Boundary => self.boundary_units.push(unit),
        }
    }

    /// Number of units.
    pub fn unit_count(&self) -> (r: usize)
        requires
            self.internal_units@.len() + self.boundary_units@.len() <= usize::MAX,
        ensures
            r == self.units().len(),
    {
        self.internal_units.len() + self.boundary_units.len()
    }

    /// The cell's size; see [`Cell::spec_size`].
    pub fn size(&self) -> (r: i64)
        requires
            self.wf(),
        ensures
            r == self.spec_size(),
    {
        let volume = self.data.pools.size();
        let internal = sum_declared(&self.internal_units);
        let boundary = sum_declared(&self.boundary_units);
        proof {
            lemma_units_total_append(self.internal_units@, self.boundary_units@, self.boundary_units@.len() as int);
        }
        let total = volume + internal + boundary;
        if total > SIZE_CAP as i128 {
            SIZE_CAP
        } else if total < -(SIZE_CAP as i128) {
            -SIZE_CAP
        } else {
            total as i64
        }
    }

    /// Unit `i` in running order.
    pub open spec fn unit_at(&self, i: int) -> BehaviorUnit {
        self.units()[i]
    }

    /// The argument of the squashing function that gives unit `i` its gate:
    /// that of the entry chosen by the single frame of the unit's sensitivity
    /// genome, at the cell's current size and signals.
    pub open spec fn spec_gate_input(&self, i: int) -> int {
        let g = self.unit_at(i).sensitivity@;
        activation_input(g[winner(g, 1, 0)], self.spec_size(), self.data.pools@.signals)
    }

    fn unit_ref(&self, i: usize) -> (r: &BehaviorUnit)
        requires
            i < self.units().len(),
        ensures
            *r == self.unit_at(i as int),
    {
        if i < self.internal_units.len() {
            &self.internal_units[i]
        } else {
            &self.boundary_units[i - self.internal_units.len()]
        }
    }

    /// See [`Cell::spec_gate_input`]; the host squashes the result into the
    /// gate for [`Cell::run_unit`].
    pub fn gate_input(&self, i: usize) -> (r: i64)
        requires
            self.wf(),
            i < self.units().len(),
        ensures
            r == self.spec_gate_input(i as int),
    {
        let size = self.size();
        let unit = self.unit_ref(i);
        assert(unit.wf());
        let ws = unit.sensitivity.frame_winners(1);
        let w = ws[0];
        proof {
            crate::genome::lemma_winner_unique(unit.sensitivity@, 1, 0, w as int);
        }
        match unit.sensitivity.get_val_at(w, size, &self.data.pools.signals) {
            Some(x) => x,
            None => 0,
        }
    }

    /// Runs unit `i` once with the squashed `gate`; see
    /// [`BehaviorUnit::tick_effect`], for a cell of its size before the run.
    pub fn run_unit(&mut self, i: usize, dt: i64, gate: i64, draw: Draw) -> (r: TickResult)
        requires
            old(self).wf(),
            i < old(self).units().len(),
            0 <= dt <= ONE,
            -ONE <= gate <= ONE,
            0 <= draw.direction <= ONE,
        ensures
            final(self).wf(),
            old(self).unit_at(i as int).tick_effect(
                old(self).data,
                final(self).data,
                old(self).spec_size(),
                dt as int,
                gate as int,
                draw,
            ),
            final(self).internal_units@ == old(self).internal_units@,
            final(self).boundary_units@ == old(self).boundary_units@,
            final(self).genome@ == old(self).genome@,
            r.replacement is None,
            r.spawned is None,
    {
        let size = self.size();
        if i < self.internal_units.len() {
            assert(self.internal_units@[i as int].wf());
            self.internal_units[i].tick(&mut self.data, size, dt, gate, draw)
        } else {
            let j = i - self.internal_units.len();
            assert(self.boundary_units@[j as int].wf());
            self.boundary_units[j].tick(&mut self.data, size, dt, gate, draw)
        }
    }

    /// First step of a tick: sugar flows in from storage, then the basal
    /// drain of `(size² + |velocity|²) * dt` energy is paid, as far as there is energy.
    pub fn begin_tick(&mut self, dt: i64)
        requires
            old(self).wf(),
            0 <= dt <= ONE,
        ensures
            final(self).wf(),
            final(self).data.pools@ == old(self).data.pools@.absorb_storage(dt as int).drain(
                basal_use(self_size_after_inflow(*old(self), dt as int), old(self).data.velocity, dt as int),
            ),
            final(self).data.velocity == old(self).data.velocity,
            final(self).data.spawn_queue@ == old(self).data.spawn_queue@,
            final(self).internal_units@ == old(self).internal_units@,
            final(self).boundary_units@ == old(self).boundary_units@,
            final(self).genome@ == old(self).genome@,
    {
        self.data.pools.absorb_storage(dt);
        let size = self.size() as i128;
        let vx = self.data.velocity.x as i128;
        let vy = self.data.velocity.y as i128;
        assert(0 <= size * size <= SIZE_CAP * SIZE_CAP) by (nonlinear_arith)
            requires -SIZE_CAP <= size <= SIZE_CAP;
        assert(0 <= vx * vx <= VELOCITY_CAP * VELOCITY_CAP) by (nonlinear_arith)
            requires -VELOCITY_CAP <= vx <= VELOCITY_CAP;
        assert(0 <= vy * vy <= VELOCITY_CAP * VELOCITY_CAP) by (nonlinear_arith)
            requires -VELOCITY_CAP <= vy <= VELOCITY_CAP;
        let per_time = (size * size + vx * vx + vy * vy) / (ONE as i128);
        assert(0 <= per_time * dt <= 3 * SIZE_CAP * SIZE_CAP * ONE) by (nonlinear_arith)
            requires 0 <= per_time <= 3 * SIZE_CAP * SIZE_CAP, 0 <= dt <= ONE;
        let use_ = per_time * (dt as i128) / (ONE as i128);
        let e = self.data.pools.energy as i128;
        let amount: i64 = if use_ < e { use_ as i64 } else { self.data.pools.energy };
        self.data.pools.drain(amount);
    }

    /// Last step of a tick: applies the results of the units' runs, result
    /// `i` belonging to unit `i` in running order.
    pub fn finish_tick(&mut self, results: Vec<TickResult>)
        requires
            old(self).wf(),
            results@.len() == old(self).units().len(),
            results_ok(results@),
        ensures
            final(self).wf(),
            final(self).internal_units@ == after_results(
                old(self).internal_units@,
                results@.subrange(0, old(self).internal_units@.len() as int),
            ),
            final(self).boundary_units@ == after_results(
                old(self).boundary_units@,
                results@.subrange(old(self).internal_units@.len() as int, results@.len() as int),
            ),
            final(self).data == old(self).data,
            final(self).genome@ == old(self).genome@,
    {
        let mut results = results;
        let ghost all = results@;
        let split = self.internal_units.len();
        let boundary_results = results.split_off(split);
        assert(results_ok(results@)) by {
            assert forall|i: int| 0 <= i < results@.len() implies #[trigger] results@[i] == all[i] by {}
        }
        assert(results_ok(boundary_results@)) by {
            assert forall|i: int| 0 <= i < boundary_results@.len() implies #[trigger] boundary_results@[i] == all[i + split] by {}
        }
        run_components(&mut self.internal_units, results);
        run_components(&mut self.boundary_units, boundary_results);
    }

    /// Dying: energy at or below [`DEATH_THRESHOLD`].
    pub fn is_dying(&self) -> (r: bool)
        ensures
            r == (self.data.pools.energy <= DEATH_THRESHOLD),
    {
        self.data.pools.energy <= DEATH_THRESHOLD
    }

    /// Takes the divisions paid for since the last call.
    pub fn drain_spawned(&mut self) -> (r: Vec<SpawnRequest>)
        requires
            old(self).wf(),
        ensures
            final(self).wf(),
            r@ == old(self).data.spawn_queue@,
            final(self).data.spawn_queue@.len() == 0,
            final(self).data.pools@ == old(self).data.pools@,
            final(self).data.velocity == old(self).data.velocity,
            final(self).internal_units@ == old(self).internal_units@,
            final(self).boundary_units@ == old(self).boundary_units@,
            final(self).genome@ == old(self).genome@,
    {
        let mut out: Vec<SpawnRequest> = Vec::new();
        std::mem::swap(&mut out, &mut self.data.spawn_queue);
        out
    }
}

/// Basal energy use over `dt` of a cell of the given size and velocity:
/// `(size² + |velocity|²) * dt`. Digestion would add its own term, but no
/// kind in the catalog digests, so that term is always zero and is left out;
/// `sugar_difficulty` is kept as a pool for the same reason.
pub open spec fn basal_use(size: int, v: Velocity, dt: int) -> int {
    (size * size + v.x * v.x + v.y * v.y) / ONE as int * dt / ONE as int
}

/// Size of the cell once the tick's inflow has happened.
pub open spec fn self_size_after_inflow(c: Cell, dt: int) -> int {
    clamp_int(
        c.data.pools@.absorb_storage(dt).volume() + units_total(c.units(), c.units().len() as int),
        -SIZE_CAP,
        SIZE_CAP as int,
    )
}

/// Slots below `m` whose bundle is present and whose catalog kind has `role`.
pub open spec fn active_slots(rna: Seq<Option<ComponentBuilderProps>>, role: Role, m: int) -> Seq<int>
    decreases m,
{
    if m <= 0 {
        Seq::empty()
    } else {
        let before = active_slots(rna, role, m - 1);
        if rna[m - 1] is Some && catalog()[m - 1].spec_role() == role {
            before.push(m - 1)
        } else {
            before
        }
    }
}

/// The units of `list` are those built from the slots `slots` of `rna`, in order.
pub open spec fn built_list(list: Seq<BehaviorUnit>, rna: Seq<Option<ComponentBuilderProps>>, slots: Seq<int>) -> bool {
    &&& list.len() == slots.len()
    &&& forall|j: int|
        0 <= j < slots.len() ==> built_from(
            #[trigger] list[j],
            catalog()[slots[j]],
            rna[slots[j]]->Some_0,
        )
}

/// Every present bundle carries a genome.
pub open spec fn rna_ok(rna: Seq<Option<ComponentBuilderProps>>) -> bool {
    forall|i: int| 0 <= i < rna.len() ==> ((#[trigger] rna[i]) matches Some(p) ==> p.weightlist.wf())
}

/// A new cell with `genome`, holding the unit that catalog kind `i` builds
/// from slot `i` of `rna` for every present slot, each in the list of its role.
pub fn create_cell(genome: WeightList, rna: RNA) -> (r: Cell)
    requires
        genome.wf(),
        rna@.len() <= crate::behavior::CATALOG_LEN,
        rna_ok(rna@),
    ensures
        r.wf(),
        r.genome@ == genome@,
        built_list(r.internal_units@, rna@, active_slots(rna@, Role::Internal, rna@.len() as int)),
        built_list(r.boundary_units@, rna@, active_slots(rna@, Role::Boundary, rna@.len() as int)),
        fresh_data(r.data),
{
    let ghost all = rna@;
    let kinds = register_component_builders();
    let mut cell = Cell::with_genome(genome);
    let n = rna.len();
    let mut rest = rna;
    let mut i: usize = 0;
    while i < n
        invariant
            0 <= i <= n,
            n == all.len(),
            n <= crate::behavior::CATALOG_LEN,
            kinds@ == catalog(),
            rna_ok(all),
            rest@ == all.subrange(i as int, n as int),
            cell.wf(),
            cell.genome@ == genome@,
            fresh_data(cell.data),
            built_list(cell.internal_units@, all, active_slots(all, Role::Internal, i as int)),
            built_list(cell.boundary_units@, all, active_slots(all, Role::Boundary, i as int)),
        decreases n - i,
    {
        let slot = rest.remove(0);
        assert(slot == all[i as int]);
        assert(rest@ =~= all.subrange(i + 1, n as int));
        match slot {
            Some(props) => {
                let kind = kinds[i];
                let unit = BehaviorUnit::build(kind, props);
                cell.inject_component(unit);
            },
            None => {},
        }
        i += 1;
    }
    cell
}

/// Decodes `genome` with the squashed values `vals` of its entries (see
/// [`crate::rna::build_rna`]) and builds a new cell carrying that genome.
pub fn decode_and_build(genome: &WeightList, vals: &Vec<i64>) -> (r: Cell)
    requires
        genome.wf(),
        vals@.len() == genome@.len(),
        crate::rna::squashed(vals@),
    ensures
        r.wf(),
        r.genome@ == genome@,
        fresh_data(r.data),
        exists|rna: Seq<Option<ComponentBuilderProps>>|
            {
                &&& rna.len() == crate::behavior::CATALOG_LEN
                &&& forall|i: int|
                    0 <= i < rna.len() ==> crate::rna::slot_matches(genome@, vals@, i, #[trigger] rna[i])
                &&& built_list(r.internal_units@, rna, active_slots(rna, Role::Internal, rna.len() as int))
                &&& built_list(r.boundary_units@, rna, active_slots(rna, Role::Boundary, rna.len() as int))
            },
{
    let rna = crate::rna::build_rna(genome, vals);
    let ghost decoded = rna@;
    proof {
        assert forall|i: int| 0 <= i < decoded.len() implies ((#[trigger] decoded[i]) matches Some(p)
            ==> p.weightlist.wf()) by {
            crate::rna::lemma_decoded_slots_build(genome@, vals@, i, decoded[i]);
        }
    }
    let cell = create_cell(genome.duplicate(), rna);
    cell
}

/// The first step of a tick keeps every pool in `[0, POOL_CAP]`, for any
/// `dt >= 0` and any basal use.
pub proof fn lemma_begin_tick_keeps_pools(p: crate::chem::Pools, dt: int, amount: int)
    requires
        p.wf(),
        0 <= dt,
    ensures
        p.absorb_storage(dt).wf(),
        p.absorb_storage(dt).drain(amount).wf(),
{
    crate::chem::lemma_reactions_keep_pools(p, 0, 0, 0, dt);
    crate::chem::lemma_reactions_keep_pools(p.absorb_storage(dt), amount, 0, 0, dt);
}

/// The pools after the first `m` units of `units` have each run once, unit
/// `i` in a cell of size `sizes[i]` with gate `gates[i]`.
pub open spec fn run_units(
    p: crate::chem::Pools,
    units: Seq<BehaviorUnit>,
    sizes: Seq<int>,
    gates: Seq<int>,
    dt: int,
    m: int,
) -> crate::chem::Pools
    decreases m,
{
    if m <= 0 {
        p
    } else {
        units[m - 1].tick_pools(run_units(p, units, sizes, gates, dt, m - 1), sizes[m - 1], dt, gates[m - 1])
    }
}

/// A whole tick keeps every pool in `[0, POOL_CAP]`: the inflow and basal
/// drain, then every unit in turn, whatever sizes and gates they see and for
/// any `dt >= 0`.
pub proof fn lemma_tick_keeps_pools(
    p: crate::chem::Pools,
    drain: int,
    units: Seq<BehaviorUnit>,
    sizes: Seq<int>,
    gates: Seq<int>,
    dt: int,
)
    requires
        p.wf(),
        0 <= dt,
        units_ok(units),
        sizes.len() == units.len(),
        gates.len() == units.len(),
    ensures
        run_units(p.absorb_storage(dt).drain(drain), units, sizes, gates, dt, units.len() as int).wf(),
{
    lemma_begin_tick_keeps_pools(p, dt, drain);
    lemma_run_units_keeps_pools(p.absorb_storage(dt).drain(drain), units, sizes, gates, dt, units.len() as int);
}

proof fn lemma_run_units_keeps_pools(
    p: crate::chem::Pools,
    units: Seq<BehaviorUnit>,
    sizes: Seq<int>,
    gates: Seq<int>,
    dt: int,
    m: int,
)
    requires
        p.wf(),
        0 <= dt,
        units_ok(units),
        0 <= m <= units.len(),
        sizes.len() == units.len(),
        gates.len() == units.len(),
    ensures
        run_units(p, units, sizes, gates, dt, m).wf(),
    decreases m,
{
    if m > 0 {
        lemma_run_units_keeps_pools(p, units, sizes, gates, dt, m - 1);
        assert(units[m - 1].wf());
        crate::behavior::lemma_unit_tick_keeps_pools(
            units[m - 1],
            run_units(p, units, sizes, gates, dt, m - 1),
            sizes[m - 1],
            dt,
            gates[m - 1],
        );
    }
}

fn sum_declared(v: &Vec<BehaviorUnit>) -> (r: i128)
    requires
        units_ok(v@),
    ensures
        r == units_total(v@, v@.len() as int),
        -(usize::MAX as int) * 0x8000_0000 <= r <= (usize::MAX as int) * 0x8000_0000,
{
    let mut acc: i128 = 0;
    let mut i: usize = 0;
    while i < v.len()
        invariant
            0 <= i <= v@.len(),
            units_ok(v@),
            acc == units_total(v@, i as int),
            -(i as int) * 0x8000_0000 <= acc <= (i as int) * 0x8000_0000,
        decreases v@.len() - i,
    {
        assert(v@[i as int].wf());
        acc = acc + v[i].declared_size as i128;
        i += 1;
    }
    acc
}

proof fn lemma_units_total_append(a: Seq<BehaviorUnit>, b: Seq<BehaviorUnit>, m: int)
    requires
        0 <= m <= b.len(),
    ensures
        units_total(a + b, a.len() + m) == units_total(a, a.len() as int) + units_total(b, m),
    decreases m,
{
    if m == 0 {
        lemma_units_total_prefix(a, b, a.len() as int);
    } else {
        lemma_units_total_append(a, b, m - 1);
        assert((a + b)[a.len() + m - 1] == b[m - 1]);
    }
}

proof fn lemma_units_total_prefix(a: Seq<BehaviorUnit>, b: Seq<BehaviorUnit>, m: int)
    requires
        0 <= m <= a.len(),
    ensures
        units_total(a + b, m) == units_total(a, m),
    decreases m,
{
    if m > 0 {
        lemma_units_total_prefix(a, b, m - 1);
        assert((a + b)[m - 1] == a[m - 1]);
    }
}

} // verus!
