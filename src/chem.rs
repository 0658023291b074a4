//! The chemical pools of a cell and the reactions that move amounts between them.
//!
//! Every reaction clamps what it takes to what is there, so no pool ever goes
//! below zero; what it adds saturates at [`POOL_CAP`].
use vstd::prelude::*;
use crate::fixed::{ONE, POOL_CAP, min_int, max_int, clamp_int};

verus! {

/// Largest complexity a storage polymer may have.
pub const COMPLEXITY_CAP: i64 = 1_000_000_000;

/// Complexity of a polymer built by synthesis.
pub const SYNTHESIS_COMPLEXITY: i64 = 2_000_000;

/// Energy spent per unit of sugar stored as polymer is `1 / POLYMER_COST_DIVISOR`.
pub const POLYMER_COST_DIVISOR: i64 = 100;

/// Amino acids made per unit of sugar burnt are `1 / AMINO_DIVISOR`.
pub const AMINO_DIVISOR: i64 = 10;

/// Sugar flowing in per unit of storage and time.
pub const STORAGE_RELEASE_RATE: i64 = 10;

/// Energy at which a reproduction unit divides the cell.
pub const FISSION_MARK: i64 = 15_000_000;

/// Energy that one division costs.
pub const FISSION_COST: i64 = 10_000_000;

/// Motion and reproduction costs divide by this.
pub const EFFORT_DIVISOR: i64 = 200;

/// A packet of stored sugar.
#[derive(Clone, Copy, Debug, PartialEq, Eq, Structural)]
pub struct Polymer {
    pub complexity: i64,
    pub amount: i64,
}

/// The pools of one cell, in fixed point.
#[derive(Debug)]
pub struct ChemicalState {
    pub energy: i64,
    pub energy_storage: i64,
    pub sugar: i64,
    pub sugar_storage: i64,
    pub sugar_difficulty: i64,
    /// Oldest first.
    pub polymers: Vec<Polymer>,
    pub signals: Vec<i64>,
    pub amino_acids: i64,
    pub proteins: i64,
}

/// The value of a [`ChemicalState`].
pub struct Pools {
    pub energy: int,
    pub energy_storage: int,
    pub sugar: int,
    pub sugar_storage: int,
    pub sugar_difficulty: int,
    pub polymers: Seq<Polymer>,
    pub signals: Seq<i64>,
    pub amino_acids: int,
    pub proteins: int,
}

impl View for ChemicalState {
    type V = Pools;

    open spec fn view(&self) -> Pools {
        Pools {
            energy: self.energy as int,
            energy_storage: self.energy_storage as int,
            sugar: self.sugar as int,
            sugar_storage: self.sugar_storage as int,
            sugar_difficulty: self.sugar_difficulty as int,
            polymers: self.polymers@,
            signals: self.signals@,
            amino_acids: self.amino_acids as int,
            proteins: self.proteins as int,
        }
    }
}

pub open spec fn in_pool(x: int) -> bool {
    0 <= x <= POOL_CAP
}

pub open spec fn polymer_ok(p: Polymer) -> bool {
    in_pool(p.amount as int) && 0 <= p.complexity <= COMPLEXITY_CAP
}

/// `a + b`, saturating at the pool bound.
pub open spec fn add_capped(a: int, b: int) -> int {
    min_int(a + b, POOL_CAP as int)
}

impl Pools {
    /// Every pool lies in `[0, POOL_CAP]`.
    pub open spec fn wf(self) -> bool {
        &&& in_pool(self.energy)
        &&& in_pool(self.energy_storage)
        &&& in_pool(self.sugar)
        &&& in_pool(self.sugar_storage)
        &&& in_pool(self.sugar_difficulty)
        &&& forall|i: int| 0 <= i < self.polymers.len() ==> polymer_ok(#[trigger] self.polymers[i])
        &&& crate::genome::signals_ok(self.signals)
        &&& in_pool(self.amino_acids)
        &&& in_pool(self.proteins)
    }

    /// Glycolysis: burns `min(request, sugar)` sugar (nothing for a request
    /// below zero) into energy at `efficiency` and amino acids at a tenth.
    pub open spec fn burn_sugar(self, request: int, efficiency: int) -> Pools {
        let used = clamp_int(request, 0, self.sugar);
        Pools {
            sugar: self.sugar - used,
            energy: add_capped(self.energy, used * efficiency / ONE as int),
            amino_acids: add_capped(self.amino_acids, used / AMINO_DIVISOR as int),
            ..self
        }
    }

    /// Polymer synthesis: stores up to `request` sugar, as far as sugar and the
    /// energy cost allow, as a new polymer at the back of the queue.
    pub open spec fn store_sugar(self, request: int, efficiency: int) -> Pools {
        let used = min_int(
            clamp_int(request, 0, self.sugar),
            self.energy * POLYMER_COST_DIVISOR,
        );
        Pools {
            sugar: self.sugar - used,
            energy: self.energy - used / POLYMER_COST_DIVISOR as int,
            polymers: self.polymers.push(
                Polymer {
                    complexity: SYNTHESIS_COMPLEXITY,
                    amount: (used * efficiency / ONE as int) as i64,
                },
            ),
            ..self
        }
    }

    /// Polymer breakdown: takes up to `request` from the oldest polymer and
    /// turns it into sugar, scaled by its complexity and `efficiency`; a
    /// polymer that runs out leaves the queue.
    pub open spec fn release_polymer(self, request: int, efficiency: int) -> Pools {
        if self.polymers.len() == 0 {
            self
        } else {
            let p = self.polymers[0];
            let want = max_int(request, 0);
            if want < p.amount {
                Pools {
                    polymers: self.polymers.update(
                        0,
                        Polymer { amount: (p.amount - want) as i64, ..p },
                    ),
                    sugar: add_capped(
                        self.sugar,
                        want * p.complexity * efficiency / (ONE * ONE) as int,
                    ),
                    ..self
                }
            } else {
                Pools {
                    polymers: self.polymers.drop_first(),
                    sugar: add_capped(
                        self.sugar,
                        p.amount * p.complexity * efficiency / (ONE * ONE) as int,
                    ),
                    ..self
                }
            }
        }
    }

    /// Protein synthesis: turns `min(request, amino acids)` amino acids into
    /// structural protein at `efficiency`.
    pub open spec fn build_proteins(self, request: int, efficiency: int) -> Pools {
        let used = clamp_int(request, 0, self.amino_acids);
        Pools {
            amino_acids: self.amino_acids - used,
            proteins: add_capped(self.proteins, used * efficiency / ONE as int),
            ..self
        }
    }

    /// Energy that a push of size `amount` costs a cell of size `cell_size`:
    /// `amount² * cell_size / 200`.
    pub open spec fn motion_cost(amount: int, cell_size: int) -> int {
        amount * amount * max_int(cell_size, 0) / (EFFORT_DIVISOR * ONE * ONE) as int
    }

    /// The push that motion actually makes: the largest one, no larger than
    /// the request and in its direction, whose cost the energy covers.
    pub open spec fn affordable_push(self, amount: int, cell_size: int) -> int {
        let m = affordable_magnitude(abs_int(amount), cell_size, self.energy);
        if amount >= 0 { m } else { -m }
    }

    /// Locomotion's energy use: exactly the cost of the push it makes, which
    /// is never more than there is.
    pub open spec fn spend_on_motion(self, amount: int, cell_size: int) -> Pools {
        Pools {
            energy: self.energy - Pools::motion_cost(self.affordable_push(amount, cell_size), cell_size),
            ..self
        }
    }

    /// Energy left after the reproduction unit's upkeep of `size² / 200`.
    pub open spec fn after_upkeep(self, cell_size: int) -> int {
        self.energy - min_int(
            cell_size * cell_size / (EFFORT_DIVISOR * ONE) as int,
            self.energy,
        )
    }

    /// Whether the reproduction unit divides the cell this tick.
    pub open spec fn fires(self, cell_size: int) -> bool {
        self.after_upkeep(cell_size) >= FISSION_MARK
    }

    /// Reproduction unit: takes in `dt` of sugar, pays its upkeep, and pays for
    /// a division when energy is at the mark.
    pub open spec fn reproduce(self, dt: int, cell_size: int) -> Pools {
        let e = self.after_upkeep(cell_size);
        Pools {
            sugar: add_capped(self.sugar, dt),
            energy: if e >= FISSION_MARK { e - FISSION_COST } else { e },
            ..self
        }
    }

    /// Passive inflow: sugar grows by `sugar_storage * 10 * dt`; storage
    /// itself is a standing source and does not shrink.
    pub open spec fn absorb_storage(self, dt: int) -> Pools {
        Pools {
            sugar: add_capped(self.sugar, self.sugar_storage * STORAGE_RELEASE_RATE * dt / ONE as int),
            ..self
        }
    }

    /// Drains up to `amount` energy.
    pub open spec fn drain(self, amount: int) -> Pools {
        Pools { energy: self.energy - clamp_int(amount, 0, self.energy), ..self }
    }

    /// Weighted bulk of the pools: sugar and stored polymer count whole,
    /// signals, amino acids and proteins a tenth.
    pub open spec fn volume(self) -> int {
        (10 * self.sugar + 10 * polymer_total(self.polymers, self.polymers.len() as int)
            + signal_total(self.signals, self.signals.len() as int) + self.amino_acids
            + self.proteins) / 10
    }
}

pub open spec fn abs_int(x: int) -> int {
    if x >= 0 { x } else { -x }
}

/// `m` is the largest push magnitude up to `limit` whose cost `energy` covers.
pub open spec fn is_affordable_max(m: int, limit: int, cell_size: int, energy: int) -> bool {
    &&& 0 <= m <= limit
    &&& Pools::motion_cost(m, cell_size) <= energy
    &&& (m == limit || Pools::motion_cost(m + 1, cell_size) > energy)
}

/// The largest push magnitude up to `limit` whose cost `energy` covers.
pub open spec fn affordable_magnitude(limit: int, cell_size: int, energy: int) -> int {
    choose|m: int| is_affordable_max(m, limit, cell_size, energy)
}

/// A larger push never costs less.
pub proof fn lemma_motion_cost_monotone(a: int, b: int, cell_size: int)
    requires
        0 <= a <= b,
    ensures
        0 <= Pools::motion_cost(a, cell_size) <= Pools::motion_cost(b, cell_size),
{
    let s = max_int(cell_size, 0);
    assert(0 <= a * a * s <= b * b * s) by (nonlinear_arith)
        requires 0 <= a <= b, 0 <= s;
    vstd::arithmetic::div_mod::lemma_div_is_ordered(a * a * s, b * b * s, (EFFORT_DIVISOR * ONE * ONE) as int);
    vstd::arithmetic::div_mod::lemma_div_is_ordered(0, a * a * s, (EFFORT_DIVISOR * ONE * ONE) as int);
}

proof fn lemma_motion_cost_zero(cell_size: int)
    ensures
        Pools::motion_cost(0, cell_size) == 0,
{
    let s = max_int(cell_size, 0);
    assert(0 * 0 * s == 0) by (nonlinear_arith);
}

proof fn lemma_affordable_unique(m: int, limit: int, cell_size: int, energy: int)
    requires
        is_affordable_max(m, limit, cell_size, energy),
    ensures
        affordable_magnitude(limit, cell_size, energy) == m,
{
    let c = affordable_magnitude(limit, cell_size, energy);
    assert(is_affordable_max(c, limit, cell_size, energy));
    if c < m {
        lemma_motion_cost_monotone(c + 1, m, cell_size);
    } else if m < c {
        lemma_motion_cost_monotone(m + 1, c, cell_size);
    }
}

/// Some push, if only the empty one, is affordable with non-negative energy.
pub proof fn lemma_affordable_exists(limit: int, cell_size: int, energy: int)
    requires
        0 <= limit,
        0 <= energy,
    ensures
        is_affordable_max(affordable_magnitude(limit, cell_size, energy), limit, cell_size, energy),
    decreases limit,
{
    if Pools::motion_cost(limit, cell_size) <= energy {
        assert(is_affordable_max(limit, limit, cell_size, energy));
    } else if limit == 0 {
        lemma_motion_cost_zero(cell_size);
    } else {
        lemma_affordable_exists(limit - 1, cell_size, energy);
        let m = affordable_magnitude(limit - 1, cell_size, energy);
        assert(is_affordable_max(m, limit, cell_size, energy));
    }
}

/// Largest size a request for a reaction may have.
pub const REQUEST_CAP: i64 = 0x8000_0000;

/// Largest magnitude of a cell size.
pub const SIZE_CAP: i64 = POOL_CAP;

const SQUARE_ONE: i128 = 1_000_000_000_000;

const MOTION_DIVISOR: i128 = 200_000_000_000_000;

const UPKEEP_DIVISOR: i128 = 200_000_000;

fn motion_cost_exec(m: i128, size: i128, cell_size: i64) -> (r: i128)
    requires
        0 <= m <= REQUEST_CAP,
        size == max_int(cell_size as int, 0),
        0 <= size <= SIZE_CAP,
    ensures
        r == Pools::motion_cost(m as int, cell_size as int),
        0 <= r,
{
    assert(0 <= m * m <= REQUEST_CAP * REQUEST_CAP) by (nonlinear_arith)
        requires 0 <= m <= REQUEST_CAP;
    let mm = m * m;
    assert(0 <= mm * size <= REQUEST_CAP * REQUEST_CAP * SIZE_CAP) by (nonlinear_arith)
        requires 0 <= mm <= REQUEST_CAP * REQUEST_CAP, 0 <= size <= SIZE_CAP;
    mm * size / MOTION_DIVISOR
}

fn add_cap(a: i64, b: i128) -> (r: i64)
    requires
        in_pool(a as int),
        b >= 0,
    ensures
        r == add_capped(a as int, b as int),
        in_pool(r as int),
{
    if b >= (POOL_CAP - a) as i128 {
        POOL_CAP
    } else {
        (a as i128 + b) as i64
    }
}

impl ChemicalState {
    /// Glycolysis; see [`Pools::burn_sugar`].
    pub fn burn_sugar(&mut self, request: i64, efficiency: i64)
        requires
            old(self)@.wf(),
            -REQUEST_CAP <= request <= REQUEST_CAP,
            0 <= efficiency <= ONE,
        ensures
            final(self)@ == old(self)@.burn_sugar(request as int, efficiency as int),
            final(self)@.wf(),
    {
        let used: i64 = if request <= 0 {
            0
        } else if request > self.sugar {
            self.sugar
        } else {
            request
        };
        assert(0 <= used * efficiency <= POOL_CAP * ONE) by (nonlinear_arith)
            requires 0 <= used <= POOL_CAP, 0 <= efficiency <= ONE;
        let gain = (used as i128) * (efficiency as i128) / (ONE as i128);
        self.sugar = self.sugar - used;
        self.energy = add_cap(self.energy, gain);
        self.amino_acids = add_cap(self.amino_acids, (used / AMINO_DIVISOR) as i128);
    }

    /// Polymer synthesis; see [`Pools::store_sugar`].
    pub fn store_sugar(&mut self, request: i64, efficiency: i64)
        requires
            old(self)@.wf(),
            -REQUEST_CAP <= request <= REQUEST_CAP,
            0 <= efficiency <= ONE,
        ensures
            final(self)@ == old(self)@.store_sugar(request as int, efficiency as int),
            final(self)@.wf(),
    {
        let mut used: i64 = if request <= 0 {
            0
        } else if request > self.sugar {
            self.sugar
        } else {
            request
        };
        if used > self.energy * POLYMER_COST_DIVISOR {
            used = self.energy * POLYMER_COST_DIVISOR;
        }
        assert(0 <= used * efficiency <= POOL_CAP * ONE) by (nonlinear_arith)
            requires 0 <= used <= POOL_CAP, 0 <= efficiency <= ONE;
        let stored = (used as i128) * (efficiency as i128) / (ONE as i128);
        assert(stored <= used) by (nonlinear_arith)
            requires 0 <= used, 0 <= efficiency <= ONE, stored == (used * efficiency) / (ONE as int);
        self.sugar = self.sugar - used;
        self.energy = self.energy - used / POLYMER_COST_DIVISOR;
        self.polymers.push(Polymer { complexity: SYNTHESIS_COMPLEXITY, amount: stored as i64 });
    }

    /// Polymer breakdown; see [`Pools::release_polymer`].
    pub fn release_polymer(&mut self, request: i64, efficiency: i64)
        requires
            old(self)@.wf(),
            -REQUEST_CAP <= request <= REQUEST_CAP,
            0 <= efficiency <= ONE,
        ensures
            final(self)@ == old(self)@.release_polymer(request as int, efficiency as int),
            final(self)@.wf(),
    {
        if self.polymers.len() == 0 {
            return;
        }
        let p = self.polymers[0];
        assert(polymer_ok(old(self)@.polymers[0]));
        let want: i64 = if request < 0 { 0 } else { request };
        if want < p.amount {
            assert(0 <= want * p.complexity <= REQUEST_CAP * COMPLEXITY_CAP) by (nonlinear_arith)
                requires 0 <= want <= REQUEST_CAP, 0 <= p.complexity <= COMPLEXITY_CAP;
            let wc = (want as i128) * (p.complexity as i128);
            assert(0 <= wc * efficiency <= REQUEST_CAP * COMPLEXITY_CAP * ONE) by (nonlinear_arith)
                requires 0 <= wc <= REQUEST_CAP * COMPLEXITY_CAP, 0 <= efficiency <= ONE;
            let gain = wc * (efficiency as i128) / SQUARE_ONE;
            self.polymers.set(0, Polymer { amount: p.amount - want, ..p });
            self.sugar = add_cap(self.sugar, gain);
        } else {
            assert(0 <= p.amount * p.complexity <= POOL_CAP * COMPLEXITY_CAP) by (nonlinear_arith)
                requires 0 <= p.amount <= POOL_CAP, 0 <= p.complexity <= COMPLEXITY_CAP;
            let ac = (p.amount as i128) * (p.complexity as i128);
            assert(0 <= ac * efficiency <= POOL_CAP * COMPLEXITY_CAP * ONE) by (nonlinear_arith)
                requires 0 <= ac <= POOL_CAP * COMPLEXITY_CAP, 0 <= efficiency <= ONE;
            let gain = ac * (efficiency as i128) / SQUARE_ONE;
            let ghost before = self.polymers@;
            self.polymers.remove(0);
            assert(self.polymers@ =~= before.drop_first());
            self.sugar = add_cap(self.sugar, gain);
        }
    }

    /// Protein synthesis; see [`Pools::build_proteins`].
    pub fn build_proteins(&mut self, request: i64, efficiency: i64)
        requires
            old(self)@.wf(),
            -REQUEST_CAP <= request <= REQUEST_CAP,
            0 <= efficiency <= ONE,
        ensures
            final(self)@ == old(self)@.build_proteins(request as int, efficiency as int),
            final(self)@.wf(),
    {
        let used: i64 = if request <= 0 {
            0
        } else if request > self.amino_acids {
            self.amino_acids
        } else {
            request
        };
        assert(0 <= used * efficiency <= POOL_CAP * ONE) by (nonlinear_arith)
            requires 0 <= used <= POOL_CAP, 0 <= efficiency <= ONE;
        let gain = (used as i128) * (efficiency as i128) / (ONE as i128);
        self.amino_acids = self.amino_acids - used;
        self.proteins = add_cap(self.proteins, gain);
        assert(self@.polymers == old(self)@.polymers);
        assert(self@.signals == old(self)@.signals);
    }

    /// Locomotion's energy use; returns the push actually made
    /// (see [`Pools::affordable_push`] and [`Pools::spend_on_motion`]).
    pub fn spend_on_motion(&mut self, amount: i64, cell_size: i64) -> (r: i64)
        requires
            old(self)@.wf(),
            -REQUEST_CAP <= amount <= REQUEST_CAP,
            -SIZE_CAP <= cell_size <= SIZE_CAP,
        ensures
            r == old(self)@.affordable_push(amount as int, cell_size as int),
            -REQUEST_CAP <= r <= REQUEST_CAP,
            final(self)@ == old(self)@.spend_on_motion(amount as int, cell_size as int),
            final(self)@.wf(),
    {
        let size: i128 = if cell_size > 0 { cell_size as i128 } else { 0 };
        let limit: i128 = if amount >= 0 { amount as i128 } else { -(amount as i128) };
        let e = self.energy as i128;
        let mut m: i128 = limit;
        let full = motion_cost_exec(limit, size, cell_size);
        if full > e {
            let mut lo: i128 = 0;
            let mut hi: i128 = limit;
            proof {
                lemma_motion_cost_zero(cell_size as int);
            }
            while hi - lo > 1
                invariant
                    0 <= lo < hi <= limit <= REQUEST_CAP,
                    0 <= size <= SIZE_CAP,
                    size == max_int(cell_size as int, 0),
                    Pools::motion_cost(lo as int, cell_size as int) <= e,
                    Pools::motion_cost(hi as int, cell_size as int) > e,
                decreases hi - lo,
            {
                let mid = lo + (hi - lo) / 2;
                if motion_cost_exec(mid, size, cell_size) <= e {
                    lo = mid;
                } else {
                    hi = mid;
                }
            }
            m = lo;
        }
        assert(is_affordable_max(m as int, limit as int, cell_size as int, e as int));
        proof {
            lemma_affordable_unique(m as int, limit as int, cell_size as int, e as int);
        }
        let cost = motion_cost_exec(m, size, cell_size);
        assert(Pools::motion_cost(-m, cell_size as int) == Pools::motion_cost(m as int, cell_size as int)) by {
            assert((-m) * (-m) == m * m) by (nonlinear_arith);
        }
        self.energy = self.energy - cost as i64;
        if amount >= 0 {
            m as i64
        } else {
            -(m as i64)
        }
    }

    /// Reproduction unit's chemistry; returns whether the cell divides
    /// (see [`Pools::reproduce`] and [`Pools::fires`]).
    pub fn reproduce(&mut self, dt: i64, cell_size: i64) -> (fired: bool)
        requires
            old(self)@.wf(),
            0 <= dt <= ONE,
            -SIZE_CAP <= cell_size <= SIZE_CAP,
        ensures
            fired == old(self)@.fires(cell_size as int),
            final(self)@ == old(self)@.reproduce(dt as int, cell_size as int),
            final(self)@.wf(),
    {
        let c = cell_size as i128;
        assert(0 <= c * c <= SIZE_CAP * SIZE_CAP) by (nonlinear_arith)
            requires -SIZE_CAP <= c <= SIZE_CAP;
        let upkeep = c * c / UPKEEP_DIVISOR;
        let paid: i64 = if upkeep < self.energy as i128 { upkeep as i64 } else { self.energy };
        let e = self.energy - paid;
        self.sugar = add_cap(self.sugar, dt as i128);
        if e >= FISSION_MARK {
            self.energy = e - FISSION_COST;
            true
        } else {
            self.energy = e;
            false
        }
    }

    /// Passive inflow; see [`Pools::absorb_storage`].
    pub fn absorb_storage(&mut self, dt: i64)
        requires
            old(self)@.wf(),
            0 <= dt <= ONE,
        ensures
            final(self)@ == old(self)@.absorb_storage(dt as int),
            final(self)@.wf(),
    {
        let st = self.sugar_storage as i128;
        assert(0 <= st * STORAGE_RELEASE_RATE * dt <= POOL_CAP * STORAGE_RELEASE_RATE * ONE) by (nonlinear_arith)
            requires 0 <= st <= POOL_CAP, 0 <= dt <= ONE;
        let flow = st * (STORAGE_RELEASE_RATE as i128) * (dt as i128) / (ONE as i128);
        self.sugar = add_cap(self.sugar, flow);
    }

    /// Weighted bulk of the pools; see [`Pools::volume`].
    pub fn size(&self) -> (r: i128)
        requires
            self@.wf(),
        ensures
            r == self@.volume(),
            0 <= r <= 3 * 0x1_0000_0000_0000_0000 * POOL_CAP,
    {
        let mut poly: i128 = 0;
        let mut i: usize = 0;
        while i < self.polymers.len()
            invariant
                0 <= i <= self.polymers@.len(),
                self@.wf(),
                poly == polymer_total(self.polymers@, i as int),
                0 <= poly <= i * POOL_CAP,
            decreases self.polymers@.len() - i,
        {
            assert(polymer_ok(self@.polymers[i as int]));
            poly = poly + self.polymers[i].amount as i128;
            i += 1;
        }
        let mut sig: i128 = 0;
        let mut i: usize = 0;
        while i < self.signals.len()
            invariant
                0 <= i <= self.signals@.len(),
                self@.wf(),
                sig == signal_total(self.signals@, i as int),
                0 <= sig <= i * POOL_CAP,
            decreases self.signals@.len() - i,
        {
            assert(0 <= self@.signals[i as int] <= POOL_CAP);
            sig = sig + self.signals[i] as i128;
            i += 1;
        }
        assert(poly <= usize::MAX * POOL_CAP && sig <= usize::MAX * POOL_CAP) by (nonlinear_arith)
            requires poly <= self.polymers@.len() * POOL_CAP, sig <= self.signals@.len() * POOL_CAP,
                self.polymers@.len() <= usize::MAX, self.signals@.len() <= usize::MAX;
        let tenths: i128 = 10 * (self.sugar as i128) + 10 * poly + sig + self.amino_acids as i128
            + self.proteins as i128;
        tenths / 10
    }

    /// Drains up to `amount` energy; see [`Pools::drain`].
    pub fn drain(&mut self, amount: i64)
        requires
            old(self)@.wf(),
        ensures
            final(self)@ == old(self)@.drain(amount as int),
            final(self)@.wf(),
    {
        if amount <= 0 {
        } else if amount >= self.energy {
            self.energy = 0;
        } else {
            self.energy = self.energy - amount;
        }
    }
}

/// Glycolysis never takes more sugar than there is, and, short of the pool
/// bound, yields exactly a tenth of the sugar it takes as amino acids.
pub proof fn lemma_glycolysis_yield(p: Pools, request: int, efficiency: int)
    requires
        p.wf(),
        p.amino_acids + p.sugar / AMINO_DIVISOR as int <= POOL_CAP,
    ensures
        0 <= p.sugar - p.burn_sugar(request, efficiency).sugar <= p.sugar,
        p.burn_sugar(request, efficiency).amino_acids - p.amino_acids == (p.sugar - p.burn_sugar(
            request,
            efficiency,
        ).sugar) / AMINO_DIVISOR as int,
{
    let used = clamp_int(request, 0, p.sugar);
    assert(used / 10 <= p.sugar / 10) by (nonlinear_arith)
        requires 0 <= used <= p.sugar;
}

/// Each reaction keeps every pool of well-formed pools in `[0, POOL_CAP]`,
/// whatever the request: what a reaction takes is clamped to what is there.
pub proof fn lemma_reactions_keep_pools(p: Pools, request: int, efficiency: int, cell_size: int, dt: int)
    requires
        p.wf(),
        0 <= efficiency <= ONE,
        0 <= dt,
    ensures
        p.burn_sugar(request, efficiency).wf(),
        p.store_sugar(request, efficiency).wf(),
        p.release_polymer(request, efficiency).wf(),
        p.build_proteins(request, efficiency).wf(),
        p.spend_on_motion(request, cell_size).wf(),
        p.reproduce(dt, cell_size).wf(),
        p.absorb_storage(dt).wf(),
        p.drain(request).wf(),
{
    let used = clamp_int(request, 0, p.sugar);
    assert(0 <= used * efficiency / ONE as int <= used) by (nonlinear_arith)
        requires 0 <= used, 0 <= efficiency <= ONE;
    let stored = min_int(used, p.energy * POLYMER_COST_DIVISOR);
    assert(0 <= stored * efficiency / ONE as int <= stored) by (nonlinear_arith)
        requires 0 <= stored, 0 <= efficiency <= ONE;
    assert(stored / POLYMER_COST_DIVISOR as int <= p.energy) by (nonlinear_arith)
        requires 0 <= stored <= p.energy * POLYMER_COST_DIVISOR;
    let q = p.store_sugar(request, efficiency);
    assert forall|i: int| 0 <= i < q.polymers.len() implies polymer_ok(#[trigger] q.polymers[i]) by {
        if i < p.polymers.len() {
            assert(q.polymers[i] == p.polymers[i]);
        }
    }
    let aa = clamp_int(request, 0, p.amino_acids);
    assert(0 <= aa * efficiency / ONE as int) by (nonlinear_arith)
        requires 0 <= aa, 0 <= efficiency <= ONE;
    if p.polymers.len() > 0 {
        let first = p.polymers[0];
        assert(polymer_ok(first));
        let want = max_int(request, 0);
        assert(0 <= want * first.complexity * efficiency / (ONE * ONE) as int) by (nonlinear_arith)
            requires 0 <= want, 0 <= first.complexity, 0 <= efficiency;
        assert(0 <= first.amount * first.complexity * efficiency / (ONE * ONE) as int) by (nonlinear_arith)
            requires 0 <= first.amount, 0 <= first.complexity, 0 <= efficiency;
        let r = p.release_polymer(request, efficiency);
        assert forall|i: int| 0 <= i < r.polymers.len() implies polymer_ok(#[trigger] r.polymers[i]) by {
            if want < first.amount {
                if i > 0 {
                    assert(r.polymers[i] == p.polymers[i]);
                }
            } else {
                assert(r.polymers[i] == p.polymers[i + 1]);
            }
        }
    }
    assert(0 <= p.sugar_storage * STORAGE_RELEASE_RATE * dt / ONE as int) by (nonlinear_arith)
        requires 0 <= p.sugar_storage, 0 <= dt;
    lemma_affordable_exists(abs_int(request), cell_size, p.energy);
    let m = affordable_magnitude(abs_int(request), cell_size, p.energy);
    assert(Pools::motion_cost(-m, cell_size) == Pools::motion_cost(m, cell_size)) by {
        assert((-m) * (-m) == m * m) by (nonlinear_arith);
    }
    lemma_motion_cost_monotone(0, m, cell_size);
    assert(0 <= cell_size * cell_size / (EFFORT_DIVISOR * ONE) as int) by (nonlinear_arith);
}

/// Glycolysis never lowers energy; it raises it only while there is sugar,
/// and with no sugar it changes nothing, so energy holds steady once sugar
/// has run out.
pub proof fn lemma_glycolysis_energy(p: Pools, request: int, efficiency: int)
    requires
        p.wf(),
        0 <= efficiency <= ONE,
    ensures
        p.burn_sugar(request, efficiency).energy >= p.energy,
        p.burn_sugar(request, efficiency).energy > p.energy ==> p.sugar > 0,
        p.sugar == 0 ==> p.burn_sugar(request, efficiency) == p,
{
    let used = clamp_int(request, 0, p.sugar);
    assert(0 <= used * efficiency / ONE as int) by (nonlinear_arith)
        requires 0 <= used, 0 <= efficiency;
    if p.sugar == 0 {
        assert(used == 0);
        assert(used * efficiency == 0) by (nonlinear_arith)
            requires used == 0;
    }
}

pub open spec fn polymer_total(s: Seq<Polymer>, m: int) -> int
    decreases m,
{
    if m <= 0 { 0 } else { polymer_total(s, m - 1) + s[m - 1].amount }
}

pub open spec fn signal_total(s: Seq<i64>, m: int) -> int
    decreases m,
{
    if m <= 0 { 0 } else { signal_total(s, m - 1) + s[m - 1] }
}

} // verus!
