use cell_sim::behavior::{
    burn_glucose_builder, create_cell_builder, create_polysaccharides_builder,
    create_proteins_builder, flagella_builder, reduce_polysaccharides_builder, TickResult,
    get_speed_efficiency, register_component_builders, BehaviorKind, BehaviorUnit, CellData,
    ComponentBuilderProps, Draw, Role, Velocity, CATALOG_LEN,
};
use cell_sim::cell::{create_cell, decode_and_build, run_components, Cell, DEATH_THRESHOLD};
use cell_sim::chem::{ChemicalState, Polymer};
use cell_sim::fixed::{ONE, POOL_CAP};
use cell_sim::genome::{Sensitivity, Weight, WeightList};
use cell_sim::rna::build_rna;

fn squash(x: i64) -> i64 {
    ((x as f64 / 1e6).tanh() * 1e6).round() as i64
}

struct Lcg(u64);

impl Lcg {
    fn next(&mut self) -> u64 {
        self.0 = self.0.wrapping_mul(6364136223846793005).wrapping_add(1442695040888963407);
        self.0 >> 33
    }
    fn range(&mut self, lo: i64, hi: i64) -> i64 {
        lo + (self.next() % ((hi - lo + 1) as u64)) as i64
    }
}

fn random_genome(g: &mut Lcg) -> WeightList {
    let n = g.range(3, 60) as usize;
    let v: Vec<Weight> = (0..n)
        .map(|_| Weight {
            index: g.range(0, 100 * ONE) as i32,
            range: g.range(0, 100 * ONE) as i32,
            base: g.range(-500 * ONE, 500 * ONE) as i32,
            sensitivity: Sensitivity {
                index: g.range(0, 3) as usize,
                weight: g.range(-500 * ONE, 500 * ONE) as i32,
            },
        })
        .collect();
    WeightList::new(v).unwrap()
}

fn squashed_values(l: &WeightList, size: i64, signals: &Vec<i64>) -> Vec<i64> {
    l.activation_inputs(size, signals).into_iter().map(squash).collect()
}

fn state(energy: i64, sugar: i64) -> ChemicalState {
    ChemicalState {
        energy,
        energy_storage: 0,
        sugar,
        sugar_storage: 0,
        sugar_difficulty: 0,
        polymers: vec![],
        signals: vec![],
        amino_acids: 0,
        proteins: 0,
    }
}

fn data(pools: ChemicalState) -> CellData {
    CellData { pools, velocity: Velocity { x: 0, y: 0 }, spawn_queue: vec![] }
}

fn unit(kind: BehaviorKind, rate: i64, efficiency: i64) -> BehaviorUnit {
    BehaviorUnit { kind, declared_size: rate, rate, efficiency, sensitivity: WeightList::placeholder() }
}

fn tick(cell: &mut Cell, dt: i64, g: &mut Lcg) {
    cell.begin_tick(dt);
    let mut results = Vec::new();
    for i in 0..cell.unit_count() {
        let gate = squash(cell.gate_input(i));
        let draw = Draw { direction: g.range(0, ONE), flip: g.next() % 2 == 0 };
        results.push(cell.run_unit(i, dt, gate, draw));
    }
    cell.finish_tick(results);
}

fn pools_ok(p: &ChemicalState) -> bool {
    let ok = |x: i64| (0..=POOL_CAP).contains(&x);
    ok(p.energy)
        && ok(p.energy_storage)
        && ok(p.sugar)
        && ok(p.sugar_storage)
        && ok(p.sugar_difficulty)
        && ok(p.amino_acids)
        && ok(p.proteins)
        && p.polymers.iter().all(|q| ok(q.amount))
        && p.signals.iter().all(|s| ok(*s))
}

#[test]
fn efficiency_saturates() {
    assert_eq!(get_speed_efficiency(ONE as i32, ONE as i32), (ONE, 500_000));
    assert_eq!(get_speed_efficiency(ONE as i32, 3 * ONE as i32), (ONE, 750_000));
    assert_eq!(get_speed_efficiency(0, ONE as i32), (0, 0));
    assert_eq!(get_speed_efficiency(2 * ONE as i32, 0), (2 * ONE, 0));
}

#[test]
fn catalog_order_and_roles() {
    let k = register_component_builders();
    assert_eq!(k.len(), CATALOG_LEN);
    assert_eq!(k[0], BehaviorKind::Reproduction);
    assert_eq!(k[1], BehaviorKind::Locomotion);
    assert_eq!(k[1].role(), Role::Boundary);
    assert!(k.iter().filter(|x| x.role() == Role::Internal).count() == 5);
}

#[test]
fn decoded_rna_fills_every_slot() {
    let mut g = Lcg(11);
    for _ in 0..1000 {
        let genome = random_genome(&mut g);
        let signals = vec![g.range(0, 5 * ONE), g.range(0, 5 * ONE)];
        let vals = squashed_values(&genome, ONE, &signals);
        let rna = build_rna(&genome, &vals);
        assert_eq!(rna.len(), CATALOG_LEN);
        for (i, slot) in rna.into_iter().enumerate() {
            if let Some(p) = slot {
                assert!(p.weightlist.len() >= 1);
                let u = BehaviorUnit::build(register_component_builders()[i], p);
                assert_eq!(u.kind, register_component_builders()[i]);
            }
        }
    }
}

#[test]
fn decode_reads_arguments_from_window() {
    // Two header entries, then one argument entry: every argument frame
    // takes its value, so every slot is active with size and proteins equal
    // to it; the first value is below one, so no sensitivity entries.
    let genome = WeightList::new(vec![
        Weight { index: 0, range: 0, base: 0, sensitivity: Sensitivity { index: 0, weight: 0 } },
        Weight { index: 0, range: 0, base: 0, sensitivity: Sensitivity { index: 0, weight: 0 } },
        Weight { index: 0, range: 0, base: 0, sensitivity: Sensitivity { index: 0, weight: 0 } },
    ])
    .unwrap();
    let vals = vec![400_000, 500_000, 600_000];
    let rna = build_rna(&genome, &vals);
    assert_eq!(rna.len(), CATALOG_LEN);
    for slot in rna.iter() {
        let p = slot.as_ref().unwrap();
        assert_eq!(p.size, 500_000);
        assert_eq!(p.proteins, 500_000);
        assert_eq!(p.weightlist.len(), 1);
        assert_eq!(p.weightlist.get()[0].base, 0);
    }
    let negative = vec![400_000, -500_000, 600_000];
    assert!(build_rna(&genome, &negative).iter().all(|s| s.is_none()));
}

#[test]
fn create_cell_sorts_units_by_role() {
    let props = |s: i32| ComponentBuilderProps { size: s, proteins: s, weightlist: WeightList::placeholder() };
    let rna = vec![Some(props(ONE as i32)), Some(props(2 * ONE as i32)), None, Some(props(3 * ONE as i32))];
    let genome = WeightList::placeholder();
    let c = create_cell(genome, rna);
    assert_eq!(c.internal_units.len(), 2);
    assert_eq!(c.boundary_units.len(), 1);
    assert_eq!(c.internal_units[0].kind, BehaviorKind::Reproduction);
    assert_eq!(c.internal_units[0].declared_size, ONE);
    assert_eq!(c.internal_units[1].kind, BehaviorKind::PolymerSynthesis);
    assert_eq!(c.internal_units[1].rate, 3 * ONE);
    assert_eq!(c.boundary_units[0].kind, BehaviorKind::Locomotion);
    assert_eq!(c.data.pools.energy, ONE);
    assert_eq!((c.data.pools.sugar, c.data.pools.amino_acids, c.data.pools.proteins), (0, 0, 0));
    assert_eq!(c.data.velocity, Velocity { x: 0, y: 0 });
    // size: no pools but energy, units of declared size 1 + 2 + 3
    assert_eq!(c.size(), 6 * ONE);
}

#[test]
fn size_weighs_pools() {
    let mut c = Cell::with_genome(WeightList::placeholder());
    c.data.pools.sugar = 2 * ONE;
    c.data.pools.proteins = 10 * ONE;
    c.data.pools.amino_acids = 5 * ONE;
    c.data.pools.polymers.push(Polymer { complexity: 2 * ONE, amount: ONE });
    c.data.pools.signals.push(3 * ONE);
    // 2 + 1 + (10 + 5 + 3) / 10
    assert_eq!(c.size(), 4_800_000);
}

#[test]
fn glycolysis_yields_a_tenth_as_amino_acids() {
    for (sugar, request) in [(5 * ONE, 2 * ONE), (ONE, 3 * ONE), (123_456, 100_000), (0, ONE)] {
        let mut s = state(ONE, sugar);
        s.burn_sugar(request, 500_000);
        let used = sugar - s.sugar;
        assert_eq!(used, request.min(sugar));
        assert_eq!(s.amino_acids, used / 10);
        assert_eq!(s.energy, ONE + used / 2);
    }
    let mut s = state(ONE, ONE);
    s.burn_sugar(-ONE, ONE);
    assert_eq!((s.sugar, s.energy, s.amino_acids), (ONE, ONE, 0));
}

#[test]
fn polymer_synthesis_and_breakdown() {
    let mut s = state(ONE, 10 * ONE);
    s.store_sugar(4 * ONE, 500_000);
    assert_eq!(s.sugar, 6 * ONE);
    assert_eq!(s.energy, ONE - 40_000);
    assert_eq!(s.polymers, vec![Polymer { complexity: 2 * ONE, amount: 2 * ONE }]);
    s.release_polymer(ONE, 500_000);
    assert_eq!(s.polymers[0].amount, ONE);
    assert_eq!(s.sugar, 7 * ONE);
    s.release_polymer(5 * ONE, ONE);
    assert!(s.polymers.is_empty());
    assert_eq!(s.sugar, 9 * ONE);
    // energy limits synthesis: 0.01 energy buys one unit of sugar
    let mut poor = state(10_000, 10 * ONE);
    poor.store_sugar(5 * ONE, ONE);
    assert_eq!(poor.sugar, 9 * ONE);
    assert_eq!(poor.energy, 0);
}

#[test]
fn protein_synthesis_clamps_to_amino_acids() {
    let mut s = state(ONE, 0);
    s.amino_acids = ONE;
    s.build_proteins(3 * ONE, 250_000);
    assert_eq!(s.amino_acids, 0);
    assert_eq!(s.proteins, 250_000);
}

#[test]
fn locomotion_never_overspends() {
    let mut d = data(state(ONE, 0));
    let u = unit(BehaviorKind::Locomotion, ONE, ONE);
    // request 1 costs 1² * 400 / 200 = 2 > 1: the largest affordable push is
    // 0.707107, which costs exactly the 1.0 there is
    u.tick(&mut d, 400 * ONE, ONE, ONE, Draw { direction: ONE, flip: false });
    assert_eq!(d.pools.energy, 0);
    assert_eq!(d.velocity, Velocity { x: 707_107, y: 0 });
    let mut d = data(state(10 * ONE, 0));
    u.tick(&mut d, 200 * ONE, ONE, ONE, Draw { direction: 250_000, flip: true });
    assert_eq!(d.pools.energy, 9 * ONE);
    assert_eq!(d.velocity, Velocity { x: -250_000, y: -750_000 });
}

#[test]
fn locomotion_spends_the_cost_of_its_push() {
    let mut s = state(ONE, 0);
    // request 2 in a cell of size 200: full cost 4; push is 1, costing 1
    let push = s.spend_on_motion(2 * ONE, 200 * ONE);
    assert_eq!(push, ONE);
    assert_eq!(s.energy, 0);
    let mut s = state(ONE, 0);
    let push = s.spend_on_motion(-2 * ONE, 200 * ONE);
    assert_eq!(push, -ONE);
    assert_eq!(s.energy, 0);
    let mut s = state(3 * ONE, 0);
    assert_eq!(s.spend_on_motion(ONE, 200 * ONE), ONE);
    assert_eq!(s.energy, 2 * ONE);
}

#[test]
fn reproduction_fires_once_above_mark() {
    let u = unit(BehaviorKind::Reproduction, ONE, 0);
    let mut d = data(state(16 * ONE, 0));
    d.pools.signals = vec![7];
    // upkeep 10² / 200 = 0.5
    u.tick(&mut d, 10 * ONE, 100_000, 0, Draw { direction: 0, flip: false });
    assert_eq!(d.spawn_queue.len(), 1);
    assert_eq!(d.pools.energy, 16 * ONE - 500_000 - 10 * ONE);
    assert_eq!(d.pools.sugar, 100_000);
    assert_eq!(d.spawn_queue[0].parent_size, 10 * ONE);
    assert_eq!(d.spawn_queue[0].signals, vec![7]);
    u.tick(&mut d, 10 * ONE, 100_000, 0, Draw { direction: 0, flip: false });
    assert_eq!(d.spawn_queue.len(), 1);
    let mut low = data(state(15 * ONE, 0));
    u.tick(&mut low, 10 * ONE, 0, 0, Draw { direction: 0, flip: false });
    assert!(low.spawn_queue.is_empty());
    assert_eq!(low.pools.energy, 15 * ONE - 500_000);
}

#[test]
fn storage_inflow_adds_sugar() {
    let mut s = state(ONE, 0);
    s.sugar_storage = 3 * ONE;
    s.absorb_storage(50_000);
    assert_eq!(s.sugar, 1_500_000);
    assert_eq!(s.sugar_storage, 3 * ONE);
    s.absorb_storage(ONE);
    assert_eq!(s.sugar, 31_500_000);
    assert_eq!(s.sugar_storage, 3 * ONE);
}

#[test]
fn glycolysis_alone_plateaus_when_sugar_runs_out() {
    // sugar = 0, sugar_storage = 1, energy = 1; only a glycolysis unit of
    // rate 1 and efficiency 1; dt = 1 for 20 steps. Energy rises exactly
    // while there is sugar, and holds steady in steps without sugar.
    let mut d = data(state(ONE, 0));
    d.pools.sugar_storage = ONE;
    let u = unit(BehaviorKind::Glycolysis, ONE, ONE);
    let mut last = d.pools.energy;
    for step in 0..20 {
        d.pools.absorb_storage(ONE);
        let had_sugar = d.pools.sugar > 0;
        u.tick(&mut d, ONE, ONE, ONE, Draw { direction: 0, flip: false });
        if had_sugar {
            assert!(d.pools.energy > last, "step {}", step);
        } else {
            assert_eq!(d.pools.energy, last, "step {}", step);
        }
        last = d.pools.energy;
    }
    // storage feeds 10 per step and the unit burns 1 per step
    assert_eq!(d.pools.energy, 21 * ONE);
    assert_eq!(d.pools.sugar, 180 * ONE);
    assert_eq!(d.pools.amino_acids, 2 * ONE);
    // without sugar nothing is burnt and energy stays put
    let mut dry = data(state(5 * ONE, 0));
    for _ in 0..20 {
        u.tick(&mut dry, ONE, ONE, ONE, Draw { direction: 0, flip: false });
        assert_eq!(dry.pools.energy, 5 * ONE);
    }
}

#[test]
fn seeded_genome_has_drawn_entries() {
    let mut g = Lcg(5);
    let mut draws: Vec<u64> = (0..6000).map(|_| g.next()).collect();
    draws[0] = 1003;
    let l = WeightList::from_draws(&draws);
    assert_eq!(l.len(), 103);
    for w in l.get() {
        assert!((0..100 * ONE as i32).contains(&w.index));
        assert!((0..100 * ONE as i32).contains(&w.range));
        assert!((-500 * ONE as i32..500 * ONE as i32).contains(&w.base));
        assert!(w.sensitivity.index < 100);
    }
    let first = (draws[1] % 100_000_000) as i32;
    assert!(l.get().iter().any(|w| w.index == first));
}

#[test]
fn builders_keep_bundle() {
    let mut genome = WeightList::placeholder();
    genome.append(Weight { index: 5, range: 0, base: 0, sensitivity: Sensitivity { index: 0, weight: 0 } });
    let u = flagella_builder(ComponentBuilderProps { size: 300_000, proteins: 100_000, weightlist: genome });
    assert_eq!(u.declared_size, 300_000);
    assert_eq!(u.rate, 300_000);
    assert_eq!(u.efficiency, 250_000);
    assert_eq!(u.sensitivity.len(), 2);
    let r = create_cell_builder(ComponentBuilderProps { size: 300_000, proteins: 100_000, weightlist: WeightList::placeholder() });
    assert_eq!((r.declared_size, r.rate, r.efficiency), (ONE, 300_000, 250_000));
}

#[test]
fn random_ticks_keep_pools_in_bounds() {
    let mut g = Lcg(3);
    for _ in 0..60 {
        let genome = random_genome(&mut g);
        let vals = squashed_values(&genome, ONE, &vec![]);
        let mut c = decode_and_build(&genome, &vals);
        c.data.pools.energy = g.range(0, 30 * ONE);
        c.data.pools.sugar = g.range(0, 30 * ONE);
        c.data.pools.sugar_storage = g.range(0, 3 * ONE);
        c.data.pools.amino_acids = g.range(0, 3 * ONE);
        c.data.pools.signals = vec![g.range(0, ONE), g.range(0, ONE)];
        c.data.pools.polymers = vec![Polymer { complexity: 2 * ONE, amount: g.range(0, ONE) }];
        for _ in 0..30 {
            let dt = g.range(0, ONE);
            tick(&mut c, dt, &mut g);
            assert!(pools_ok(&c.data.pools));
            for req in c.drain_spawned() {
                let vals = squashed_values(&c.genome, req.parent_size, &req.signals);
                let child = decode_and_build(&c.genome, &vals);
                assert_eq!(child.data.pools.energy, ONE);
            }
            if c.is_dying() {
                assert!(c.data.pools.energy <= DEATH_THRESHOLD);
                break;
            }
        }
    }
}

#[test]
fn named_builders_build_their_kind() {
    let props = || ComponentBuilderProps { size: ONE as i32, proteins: ONE as i32, weightlist: WeightList::placeholder() };
    assert_eq!(create_cell_builder(props()).kind, BehaviorKind::Reproduction);
    assert_eq!(flagella_builder(props()).kind, BehaviorKind::Locomotion);
    assert_eq!(flagella_builder(props()).kind.role(), Role::Boundary);
    assert_eq!(burn_glucose_builder(props()).efficiency, 500_000);
    assert_eq!(create_polysaccharides_builder(props()).kind, BehaviorKind::PolymerSynthesis);
    assert_eq!(create_proteins_builder(props()).kind, BehaviorKind::ProteinSynthesis);
    assert_eq!(reduce_polysaccharides_builder(props()).rate, ONE);
}

#[test]
fn pools_size_counts_bulk() {
    let mut s = state(ONE, 3 * ONE);
    s.amino_acids = ONE;
    s.signals = vec![ONE, ONE];
    assert_eq!(s.size(), 3 * ONE as i128 + 300_000);
}

#[test]
fn basal_drain_is_clamped() {
    let mut c = Cell::with_genome(WeightList::placeholder());
    c.data.pools.sugar = 10 * ONE;
    c.data.velocity = Velocity { x: 0, y: 0 };
    // size 10: use 100 per unit of time; over 0.001 that is 0.1
    c.begin_tick(1_000);
    assert_eq!(c.data.pools.energy, ONE - 100_000);
    c.data.pools.sugar = 1000 * ONE;
    c.begin_tick(ONE);
    assert_eq!(c.data.pools.energy, 0);
    assert!(c.is_dying());
}

#[test]
fn finish_tick_applies_results() {
    let mut list = vec![unit(BehaviorKind::Glycolysis, ONE, 0), unit(BehaviorKind::PolymerSynthesis, ONE, 0)];
    let results = vec![
        TickResult { replacement: Some(unit(BehaviorKind::ProteinSynthesis, 2 * ONE, 0)), spawned: None },
        TickResult { replacement: None, spawned: Some(vec![unit(BehaviorKind::PolymerBreakdown, ONE, 0)]) },
    ];
    run_components(&mut list, results);
    let kinds: Vec<BehaviorKind> = list.iter().map(|u| u.kind).collect();
    assert_eq!(
        kinds,
        vec![BehaviorKind::ProteinSynthesis, BehaviorKind::PolymerSynthesis, BehaviorKind::PolymerBreakdown]
    );
}
