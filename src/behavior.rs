//! The catalog of behaviour units, how each is built from decoded parameters,
//! and what one tick of each does to a cell.
use vstd::prelude::*;
use crate::fixed::{ONE, POOL_CAP, trunc_div, clamp_int};
use crate::chem::{ChemicalState, Pools, REQUEST_CAP, SIZE_CAP};
use crate::genome::WeightList;

verus! {

/// Size declared by every reproduction unit.
pub const REPRODUCTION_UNIT_SIZE: i64 = 1_000_000;

/// Largest magnitude of a velocity component.
pub const VELOCITY_CAP: i64 = POOL_CAP;

/// The kinds of behaviour unit, in catalog order.
#[derive(Clone, Copy, Debug, PartialEq, Eq, Structural)]
pub enum BehaviorKind {
    Reproduction,
    Locomotion,
    Glycolysis,
    PolymerSynthesis,
    ProteinSynthesis,
    PolymerBreakdown,
}

/// Where in the cell a unit sits.
#[derive(Clone, Copy, Debug, PartialEq, Eq, Structural)]
pub enum Role {
    Internal,
    Boundary,
}

/// The catalog, in registry order: slot `i` of decoded RNA builds kind `i`.
pub open spec fn catalog() -> Seq<BehaviorKind> {
    seq![
        BehaviorKind::Reproduction,
        BehaviorKind::Locomotion,
        BehaviorKind::Glycolysis,
        BehaviorKind::PolymerSynthesis,
        BehaviorKind::ProteinSynthesis,
        BehaviorKind::PolymerBreakdown,
    ]
}

/// Number of kinds in the catalog.
pub const CATALOG_LEN: usize = 6;

/// The catalog as a vector.
pub fn register_component_builders() -> (r: Vec<BehaviorKind>)
    ensures
        r@ == catalog(),
        r@.len() == CATALOG_LEN,
{
    let r = vec![
        BehaviorKind::Reproduction,
        BehaviorKind::Locomotion,
        BehaviorKind::Glycolysis,
        BehaviorKind::PolymerSynthesis,
        BehaviorKind::ProteinSynthesis,
        BehaviorKind::PolymerBreakdown,
    ];
    assert(r@ =~= catalog());
    r
}

impl BehaviorKind {
    pub open spec fn spec_role(self) -> Role {
        match self {
            BehaviorKind::Locomotion => Role::Boundary,
            _ => Role::Internal,
        }
    }

    /// Locomotion faces the outside; every other kind is internal.
    pub fn role(&self) -> (r: Role)
        ensures
            r == self.spec_role(),
    {
        match self {
            BehaviorKind::Locomotion => Role::Boundary,
            _ => Role::Internal,
        }
    }
}

/// Parameters decoded for one catalog slot.
#[derive(Debug)]
pub struct ComponentBuilderProps {
    pub size: i32,
    pub proteins: i32,
    pub weightlist: WeightList,
}

/// `(proteins/size) / (proteins/size + 1)`, which is `proteins / (proteins + size)`:
/// approaches one as proteins per unit of size grow. Zero unless both are positive.
pub open spec fn efficiency(size: int, proteins: int) -> int {
    if size > 0 && proteins > 0 { proteins * ONE / (proteins + size) } else { 0 }
}

/// Rate and efficiency of a unit of the given size and protein budget.
pub fn get_speed_efficiency(size: i32, proteins: i32) -> (r: (i64, i64))
    ensures
        r.0 == size,
        r.1 == efficiency(size as int, proteins as int),
        0 <= r.1 < ONE,
{
    if size > 0 && proteins > 0 {
        let p = proteins as i64;
        let total = p + size as i64;
        assert((p * ONE) / (total as int) < ONE) by (nonlinear_arith)
            requires 0 < p < total;
        assert(0 <= (p * ONE) / (total as int)) by (nonlinear_arith)
            requires 0 < p < total;
        (size as i64, p * ONE / total)
    } else {
        (size as i64, 0)
    }
}

/// `u` is the unit that kind `kind` builds from `p`.
pub open spec fn built_from(u: BehaviorUnit, kind: BehaviorKind, p: ComponentBuilderProps) -> bool {
    &&& u.kind == kind
    &&& u.rate == p.size
    &&& u.efficiency == efficiency(p.size as int, p.proteins as int)
    &&& u.declared_size == (if kind == BehaviorKind::Reproduction {
        REPRODUCTION_UNIT_SIZE as int
    } else {
        p.size as int
    })
    &&& u.sensitivity@ == p.weightlist@
}

/// Builds a reproduction unit.
pub fn create_cell_builder(props: ComponentBuilderProps) -> (r: BehaviorUnit)
    requires
        props.weightlist.wf(),
    ensures
        r.wf(),
        built_from(r, BehaviorKind::Reproduction, props),
{
    BehaviorUnit::build(BehaviorKind::Reproduction, props)
}

/// Builds a locomotion unit.
pub fn flagella_builder(props: ComponentBuilderProps) -> (r: BehaviorUnit)
    requires
        props.weightlist.wf(),
    ensures
        r.wf(),
        built_from(r, BehaviorKind::Locomotion, props),
{
    BehaviorUnit::build(BehaviorKind::Locomotion, props)
}

/// Builds a glycolysis unit.
pub fn burn_glucose_builder(props: ComponentBuilderProps) -> (r: BehaviorUnit)
    requires
        props.weightlist.wf(),
    ensures
        r.wf(),
        built_from(r, BehaviorKind::Glycolysis, props),
{
    BehaviorUnit::build(BehaviorKind::Glycolysis, props)
}

/// Builds a polymer synthesis unit.
pub fn create_polysaccharides_builder(props: ComponentBuilderProps) -> (r: BehaviorUnit)
    requires
        props.weightlist.wf(),
    ensures
        r.wf(),
        built_from(r, BehaviorKind::PolymerSynthesis, props),
{
    BehaviorUnit::build(BehaviorKind::PolymerSynthesis, props)
}

/// Builds a protein synthesis unit.
pub fn create_proteins_builder(props: ComponentBuilderProps) -> (r: BehaviorUnit)
    requires
        props.weightlist.wf(),
    ensures
        r.wf(),
        built_from(r, BehaviorKind::ProteinSynthesis, props),
{
    BehaviorUnit::build(BehaviorKind::ProteinSynthesis, props)
}

/// Builds a polymer breakdown unit.
pub fn reduce_polysaccharides_builder(props: ComponentBuilderProps) -> (r: BehaviorUnit)
    requires
        props.weightlist.wf(),
    ensures
        r.wf(),
        built_from(r, BehaviorKind::PolymerBreakdown, props),
{
    BehaviorUnit::build(BehaviorKind::PolymerBreakdown, props)
}

/// How much a unit asks for in one tick: `rate * dt * gate`.
pub open spec fn request(rate: int, dt: int, gate: int) -> int {
    trunc_div(rate * dt * gate, ONE * ONE)
}

/// A behaviour unit: a kind and the constants decoded for it.
#[derive(Debug)]
pub struct BehaviorUnit {
    pub kind: BehaviorKind,
    pub declared_size: i64,
    pub rate: i64,
    pub efficiency: i64,
    pub sensitivity: WeightList,
}

/// What a unit's tick hands back: a unit to take its place, and new units.
#[derive(Debug)]
pub struct TickResult {
    pub replacement: Option<BehaviorUnit>,
    pub spawned: Option<Vec<BehaviorUnit>>,
}

/// A division that a reproduction unit has paid for: the parent's size and
/// signals at that moment, from which the child's genome is decoded.
#[derive(Debug)]
pub struct SpawnRequest {
    pub parent_size: i64,
    pub signals: Vec<i64>,
}

/// The random draws that locomotion uses: a direction share in `[0, ONE]`
/// and whether to reverse.
#[derive(Clone, Copy, Debug, PartialEq, Eq, Structural)]
pub struct Draw {
    pub direction: i64,
    pub flip: bool,
}

#[derive(Clone, Copy, Debug, PartialEq, Eq, Structural)]
pub struct Velocity {
    pub x: i64,
    pub y: i64,
}

/// The state that units act on.
#[derive(Debug)]
pub struct CellData {
    pub pools: ChemicalState,
    pub velocity: Velocity,
    pub spawn_queue: Vec<SpawnRequest>,
}

impl CellData {
    pub open spec fn wf(&self) -> bool {
        &&& self.pools@.wf()
        &&& -VELOCITY_CAP <= self.velocity.x <= VELOCITY_CAP
        &&& -VELOCITY_CAP <= self.velocity.y <= VELOCITY_CAP
    }
}

/// The velocity change that a push makes: split between the axes by the
/// direction share, scaled by efficiency, reversed on a flip.
pub open spec fn push_delta(push: int, efficiency: int, draw: Draw) -> (int, int) {
    let p = trunc_div(push * efficiency, ONE as int);
    let dx = trunc_div(p * draw.direction, ONE as int);
    let dy = trunc_div(p * (ONE - draw.direction), ONE as int);
    if draw.flip { (-dx, -dy) } else { (dx, dy) }
}

pub open spec fn add_velocity(v: int, d: int) -> int {
    clamp_int(v + d, -VELOCITY_CAP, VELOCITY_CAP as int)
}

impl BehaviorUnit {
    pub open spec fn wf(&self) -> bool {
        &&& self.sensitivity.wf()
        &&& i32::MIN <= self.rate <= i32::MAX
        &&& i32::MIN <= self.declared_size <= i32::MAX
        &&& 0 <= self.efficiency <= ONE
    }

    /// A unit of `kind` built from `props`: rate is the size, efficiency as
    /// [`efficiency`]; a reproduction unit declares a fixed size.
    pub fn build(kind: BehaviorKind, props: ComponentBuilderProps) -> (r: BehaviorUnit)
        requires
            props.weightlist.wf(),
        ensures
            r.wf(),
            r.kind == kind,
            r.rate == props.size,
            r.efficiency == efficiency(props.size as int, props.proteins as int),
            r.declared_size == (if kind == BehaviorKind::Reproduction {
                REPRODUCTION_UNIT_SIZE as int
            } else {
                props.size as int
            }),
            r.sensitivity@ == props.weightlist@,
            built_from(r, kind, props),
    {
        let (rate, eff) = get_speed_efficiency(props.size, props.proteins);
        let declared_size = match kind {
            BehaviorKind::Reproduction => REPRODUCTION_UNIT_SIZE,
            _ => props.size as i64,
        };
        BehaviorUnit { kind, declared_size, rate, efficiency: eff, sensitivity: props.weightlist }
    }

    /// The pools after one tick of this unit.
    pub open spec fn tick_pools(&self, p: Pools, cell_size: int, dt: int, gate: int) -> Pools {
        let req = request(self.rate as int, dt, gate);
        match self.kind {
            BehaviorKind::Reproduction => p.reproduce(dt, cell_size),
            BehaviorKind::Locomotion => p.spend_on_motion(req, cell_size),
            BehaviorKind::Glycolysis => p.burn_sugar(req, self.efficiency as int),
            BehaviorKind::PolymerSynthesis => p.store_sugar(req, self.efficiency as int),
            BehaviorKind::ProteinSynthesis => p.build_proteins(req, self.efficiency as int),
            BehaviorKind::PolymerBreakdown => p.release_polymer(req, self.efficiency as int),
        }
    }

    /// What one tick does to the data of a cell of size `cell_size`: the
    /// pools change as [`BehaviorUnit::tick_pools`] says; locomotion adds its
    /// push to the velocity; a reproduction unit that fires queues a division
    /// with the parent's size and signals; nothing else changes.
    pub open spec fn tick_effect(
        &self,
        before: CellData,
        after: CellData,
        cell_size: int,
        dt: int,
        gate: int,
        draw: Draw,
    ) -> bool {
        let fires = self.kind == BehaviorKind::Reproduction && before.pools@.fires(cell_size);
        &&& after.wf()
        &&& after.pools@ == self.tick_pools(before.pools@, cell_size, dt, gate)
        &&& self.kind == BehaviorKind::Locomotion ==> {
            let push = before.pools@.affordable_push(
                request(self.rate as int, dt, gate),
                cell_size,
            );
            let d = push_delta(push, self.efficiency as int, draw);
            &&& after.velocity.x == add_velocity(before.velocity.x as int, d.0)
            &&& after.velocity.y == add_velocity(before.velocity.y as int, d.1)
        }
        &&& self.kind != BehaviorKind::Locomotion ==> after.velocity == before.velocity
        &&& fires ==> after.spawn_queue@.len() == before.spawn_queue@.len() + 1 && ({
            let q = after.spawn_queue@.last();
            q.parent_size == cell_size && q.signals@ == before.pools@.signals
        })
        &&& !fires ==> after.spawn_queue@ == before.spawn_queue@
        &&& forall|i: int|
            0 <= i < before.spawn_queue@.len() ==> after.spawn_queue@[i] == before.spawn_queue@[i]
    }

    /// One tick of this unit against `data`. `gate` is the squashed value
    /// that the unit's sensitivity genome takes in the cell's current state,
    /// so the unit asks for `rate * dt * gate`.
    pub fn tick(&self, data: &mut CellData, cell_size: i64, dt: i64, gate: i64, draw: Draw) -> (r:
        TickResult)
        requires
            self.wf(),
            old(data).wf(),
            -SIZE_CAP <= cell_size <= SIZE_CAP,
            0 <= dt <= ONE,
            -ONE <= gate <= ONE,
            0 <= draw.direction <= ONE,
        ensures
            self.tick_effect(*old(data), *final(data), cell_size as int, dt as int, gate as int, draw),
            r.replacement is None,
            r.spawned is None,
    {
        assert(-0x8000_0000 * ONE <= self.rate * dt <= 0x8000_0000 * ONE) by (nonlinear_arith)
            requires i32::MIN <= self.rate <= i32::MAX, 0 <= dt <= ONE;
        let rd = self.rate as i128 * dt as i128;
        assert(-0x8000_0000 * ONE * ONE <= rd * gate <= 0x8000_0000 * ONE * ONE) by (nonlinear_arith)
            requires -0x8000_0000 * ONE <= rd <= 0x8000_0000 * ONE, -ONE <= gate <= ONE;
        let req128 = crate::fixed::div_toward_zero(rd * gate as i128, 1_000_000_000_000);
        assert(-0x8000_0000 <= req128 <= 0x8000_0000) by (nonlinear_arith)
            requires
                -0x8000_0000 * ONE * ONE <= rd * gate <= 0x8000_0000 * ONE * ONE,
                req128 == trunc_div(rd * gate, ONE * ONE);
        let req = req128 as i64;
        assert(rd * gate == self.rate * dt * gate);
        match self.kind {
            BehaviorKind::Reproduction => {
                let fired = data.pools.reproduce(dt, cell_size);
                if fired {
                    let signals = copy_signals(&data.pools.signals);
                    data.spawn_queue.push(SpawnRequest { parent_size: cell_size, signals });
                }
            },
            BehaviorKind::Locomotion => {
                let push = data.pools.spend_on_motion(req, cell_size);
                let (dx, dy) = push_delta_exec(push, self.efficiency, draw);
                data.velocity = Velocity {
                    x: add_velocity_exec(data.velocity.x, dx),
                    y: add_velocity_exec(data.velocity.y, dy),
                };
            },
            BehaviorKind::Glycolysis => {
                data.pools.burn_sugar(req, self.efficiency);
            },
            BehaviorKind::PolymerSynthesis => {
                data.pools.store_sugar(req, self.efficiency);
            },
            BehaviorKind::ProteinSynthesis => {
                data.pools.build_proteins(req, self.efficiency);
            },
            BehaviorKind::PolymerBreakdown => {
                data.pools.release_polymer(req, self.efficiency);
            },
        }
        TickResult { replacement: None, spawned: None }
    }
}

/// A tick of any unit leaves every pool of well-formed pools in
/// `[0, POOL_CAP]`: no pool goes negative, for any gating value and cell size.
pub proof fn lemma_unit_tick_keeps_pools(u: BehaviorUnit, p: Pools, cell_size: int, dt: int, gate: int)
    requires
        u.wf(),
        p.wf(),
        0 <= dt,
    ensures
        u.tick_pools(p, cell_size, dt, gate).wf(),
{
    crate::chem::lemma_reactions_keep_pools(
        p,
        request(u.rate as int, dt, gate),
        u.efficiency as int,
        cell_size,
        dt,
    );
}

/// A reproduction unit divides at most once per tick: the queue grows by one
/// exactly when energy after upkeep is at the mark, and the division's cost
/// is already paid when the division is queued, so before any child genome
/// is decoded from it.
pub proof fn lemma_reproduction_fires_once(
    u: BehaviorUnit,
    before: CellData,
    after: CellData,
    cell_size: int,
    dt: int,
    gate: int,
    draw: Draw,
)
    requires
        u.kind == BehaviorKind::Reproduction,
        u.tick_effect(before, after, cell_size, dt, gate, draw),
    ensures
        after.spawn_queue@.len() == before.spawn_queue@.len() + (if before.pools@.fires(cell_size) {
            1int
        } else {
            0int
        }),
        before.pools@.fires(cell_size) ==> after.pools.energy == before.pools@.after_upkeep(cell_size)
            - crate::chem::FISSION_COST,
        !before.pools@.fires(cell_size) ==> after.pools.energy == before.pools@.after_upkeep(cell_size),
{
}

fn copy_signals(v: &Vec<i64>) -> (r: Vec<i64>)
    ensures
        r@ == v@,
{
    let mut out: Vec<i64> = Vec::new();
    let mut i: usize = 0;
    while i < v.len()
        invariant
            0 <= i <= v@.len(),
            out@ == v@.subrange(0, i as int),
        decreases v@.len() - i,
    {
        out.push(v[i]);
        assert(out@ =~= v@.subrange(0, i + 1));
        i += 1;
    }
    assert(out@ =~= v@);
    out
}

fn push_delta_exec(push: i64, efficiency: i64, draw: Draw) -> (r: (i64, i64))
    requires
        -REQUEST_CAP <= push <= REQUEST_CAP,
        0 <= efficiency <= ONE,
        0 <= draw.direction <= ONE,
    ensures
        r.0 == push_delta(push as int, efficiency as int, draw).0,
        r.1 == push_delta(push as int, efficiency as int, draw).1,
        -REQUEST_CAP <= r.0 <= REQUEST_CAP,
        -REQUEST_CAP <= r.1 <= REQUEST_CAP,
{
    assert(-REQUEST_CAP * ONE <= push * efficiency <= REQUEST_CAP * ONE) by (nonlinear_arith)
        requires -REQUEST_CAP <= push <= REQUEST_CAP, 0 <= efficiency <= ONE;
    let p = crate::fixed::div_toward_zero(push as i128 * efficiency as i128, ONE as i128);
    assert(-REQUEST_CAP <= p <= REQUEST_CAP) by (nonlinear_arith)
        requires -REQUEST_CAP * ONE <= push * efficiency <= REQUEST_CAP * ONE,
            p == trunc_div(push * efficiency, ONE as int);
    let d = draw.direction as i128;
    assert(-REQUEST_CAP * ONE <= p * d <= REQUEST_CAP * ONE) by (nonlinear_arith)
        requires -REQUEST_CAP <= p <= REQUEST_CAP, 0 <= d <= ONE;
    assert(-REQUEST_CAP * ONE <= p * (ONE - d) <= REQUEST_CAP * ONE) by (nonlinear_arith)
        requires -REQUEST_CAP <= p <= REQUEST_CAP, 0 <= d <= ONE;
    let dx = crate::fixed::div_toward_zero(p * d, ONE as i128);
    let dy = crate::fixed::div_toward_zero(p * (ONE as i128 - d), ONE as i128);
    assert(-REQUEST_CAP <= dx <= REQUEST_CAP) by (nonlinear_arith)
        requires -REQUEST_CAP * ONE <= p * d <= REQUEST_CAP * ONE, dx == trunc_div(p * d, ONE as int);
    assert(-REQUEST_CAP <= dy <= REQUEST_CAP) by (nonlinear_arith)
        requires -REQUEST_CAP * ONE <= p * (ONE - d) <= REQUEST_CAP * ONE,
            dy == trunc_div(p * (ONE - d), ONE as int);
    if draw.flip {
        (-(dx as i64), -(dy as i64))
    } else {
        (dx as i64, dy as i64)
    }
}

fn add_velocity_exec(v: i64, d: i64) -> (r: i64)
    requires
        -VELOCITY_CAP <= v <= VELOCITY_CAP,
        -REQUEST_CAP <= d <= REQUEST_CAP,
    ensures
        r == add_velocity(v as int, d as int),
{
    let s = v + d;
    if s > VELOCITY_CAP {
        VELOCITY_CAP
    } else if s < -VELOCITY_CAP {
        -VELOCITY_CAP
    } else {
        s
    }
}

} // verus!
