//! Genomes: non-empty lists of weighted entries kept sorted by position.
use vstd::prelude::*;
use crate::fixed::{ONE, POOL_CAP, trunc_div, clamp_int, max_int};

verus! {

/// Bound on the value handed to the squashing function; beyond it the
/// squashed value no longer changes in any representable way.
pub const ACTIVATION_INPUT_CAP: i64 = 1_000_000_000_000;

/// Which signal molecule modulates an entry, and how strongly.
#[derive(Clone, Copy, Debug, PartialEq, Eq, Structural)]
pub struct Sensitivity {
    pub index: usize,
    pub weight: i32,
}

/// One genome entry; `index`, `range`, `base` and the sensitivity weight are
/// fixed-point numbers.
#[derive(Clone, Copy, Debug, PartialEq, Eq, Structural)]
pub struct Weight {
    pub index: i32,
    pub range: i32,
    pub base: i32,
    pub sensitivity: Sensitivity,
}

/// The zero-valued entry that stands in for an empty window.
pub open spec fn zero_weight() -> Weight {
    Weight { index: 0, range: 0, base: 0, sensitivity: Sensitivity { index: 0, weight: 0 } }
}

/// Errors in cutting a genome into windows.
#[derive(Clone, Copy, Debug, PartialEq, Eq, Structural)]
pub enum DecodeError {
    DegenerateWindow,
}

/// Errors in building a genome.
#[derive(Clone, Copy, Debug, PartialEq, Eq, Structural)]
pub enum ConfigError {
    EmptyGenome,
}

pub open spec fn sorted_by_index(s: Seq<Weight>) -> bool {
    forall|i: int, j: int| 0 <= i <= j < s.len() ==> s[i].index <= s[j].index
}

/// Selects the entries at position `k`.
pub open spec fn has_index(k: i32) -> spec_fn(Weight) -> bool {
    |w: Weight| w.index == k
}

/// Number of entries in a seeded genome: 100 to 1099.
pub open spec fn seed_count(d0: u64) -> int {
    100 + (d0 % 1000) as int
}

/// The seeded entry built from the five draws at `b`: index and range in
/// `[0, 100)`, base and signal weight in `[-500, 500)`, signal index below 100.
pub open spec fn seed_entry(draws: Seq<u64>, b: int) -> Weight {
    Weight {
        index: (draws[b] % (100 * ONE) as u64) as i32,
        range: (draws[b + 1] % (100 * ONE) as u64) as i32,
        base: ((draws[b + 2] % (1000 * ONE) as u64) as int - 500 * ONE) as i32,
        sensitivity: Sensitivity {
            index: (draws[b + 3] % 100) as usize,
            weight: ((draws[b + 4] % (1000 * ONE) as u64) as int - 500 * ONE) as i32,
        },
    }
}

/// The entries of the genome seeded from `draws`, in draw order.
pub open spec fn seed_entries(draws: Seq<u64>) -> Seq<Weight> {
    Seq::new(seed_count(draws[0]) as nat, |j: int| seed_entry(draws, 1 + 5 * j))
}

/// A genome: a non-empty sequence of entries, ascending by `index`.
#[derive(Debug)]
pub struct WeightList {
    weights: Vec<Weight>,
}

impl View for WeightList {
    type V = Seq<Weight>;

    closed spec fn view(&self) -> Seq<Weight> {
        self.weights@
    }
}

impl WeightList {
    pub open spec fn wf(&self) -> bool {
        self@.len() > 0 && sorted_by_index(self@)
    }

    /// The entries, ascending by index.
    pub fn get(&self) -> (r: &Vec<Weight>)
        ensures
            r@ == self@,
    {
        &self.weights
    }

    pub fn len(&self) -> (r: usize)
        ensures
            r == self@.len(),
    {
        self.weights.len()
    }

    /// What the squashing function is applied to for the entry at `index`, if
    /// there is one; the value at a missing index is zero.
    pub fn get_val_at(&self, index: usize, cell_size: i64, signals: &Vec<i64>) -> (r: Option<i64>)
        requires
            signals_ok(signals@),
        ensures
            index >= self@.len() ==> r is None,
            index < self@.len() ==> r == Some(
                activation_input(self@[index as int], cell_size as int, signals@) as i64,
            ),
            index < self@.len() && self@[index as int].sensitivity.index >= signals@.len() ==> r
                == Some(self@[index as int].base as i64),
    {
        if index < self.weights.len() {
            Some(weight_activation_input(&self.weights[index], cell_size, signals))
        } else {
            None
        }
    }

    /// `get_val_at` for every entry, in order.
    pub fn activation_inputs(&self, cell_size: i64, signals: &Vec<i64>) -> (r: Vec<i64>)
        requires
            signals_ok(signals@),
        ensures
            r@.len() == self@.len(),
            forall|i: int|
                0 <= i < self@.len() ==> r@[i] == activation_input(
                    #[trigger] self@[i],
                    cell_size as int,
                    signals@,
                ),
    {
        let mut out: Vec<i64> = Vec::new();
        let mut i: usize = 0;
        while i < self.weights.len()
            invariant
                0 <= i <= self@.len(),
                signals_ok(signals@),
                out@.len() == i,
                forall|m: int|
                    0 <= m < i ==> out@[m] == activation_input(
                        #[trigger] self@[m],
                        cell_size as int,
                        signals@,
                    ),
            decreases self@.len() - i,
        {
            out.push(weight_activation_input(&self.weights[i], cell_size, signals));
            i += 1;
        }
        out
    }

    /// Right end of the domain: the largest `index + range`, and at least the
    /// first index.
    fn domain_end(&self) -> (r: i64)
        requires
            self.wf(),
        ensures
            r == domain_end(self@),
    {
        let mut acc: i64 = self.weights[0].index as i64;
        let mut i: usize = 0;
        while i < self.weights.len()
            invariant
                0 <= i <= self@.len(),
                self.wf(),
                acc == end_upto(self@, i as int),
            decreases self@.len() - i,
        {
            proof {
                lemma_end_bounds(self@, i as int);
            }
            let w = self.weights[i];
            let e = w.index as i64 + w.range as i64;
            if e > acc {
                acc = e;
            }
            i += 1;
        }
        acc
    }

    /// For each of `n` equal frames over the domain, the entry whose value the
    /// frame takes.
    pub fn frame_winners(&self, n: usize) -> (r: Vec<usize>)
        requires
            self.wf(),
        ensures
            r@.len() == n,
            forall|k: int| 0 <= k < n ==> is_winner(self@, n as int, k, #[trigger] r@[k] as int),
    {
        let ghost s = self@;
        let len = self.weights.len();
        let start = self.weights[0].index as i128;
        let end = self.domain_end();
        proof {
            lemma_end_bounds(s, s.len() as int);
        }
        let width = end as i128 - start;
        let mut out: Vec<usize> = Vec::new();
        let mut j: usize = 1;
        let mut k: usize = 0;
        assert(covers(s, n as int, 0, 0)) by {
            assert(0 * width <= 1 * width) by (nonlinear_arith)
                requires width >= 0;
        }
        while k < n
            invariant
                self.wf(),
                s == self@,
                len == s.len(),
                start == s[0].index,
                width == domain_end(s) - s[0].index,
                0 <= width <= 4 * (i32::MAX as int),
                0 <= k <= n,
                1 <= j <= len,
                out@.len() == k,
                forall|i: int| 0 <= i < j ==> covers(s, n as int, k as int, i),
                forall|m: int| 0 <= m < k ==> is_winner(s, n as int, m, #[trigger] out@[m] as int),
            decreases n - k,
        {
            assert(0 <= (k + 1) * width <= 0x1_0000_0000_0000_0000 * 4 * (i32::MAX as int)) by (nonlinear_arith)
                requires 0 <= width <= 4 * (i32::MAX as int), 0 <= k < 0xffff_ffff_ffff_ffff;
            let hi: i128 = (k as i128 + 1) * width;
            assert(hi == (k + 1) * width);
            while j < len
                invariant
                    self.wf(),
                    s == self@,
                    len == s.len(),
                    start == s[0].index,
                    width == domain_end(s) - s[0].index,
                    0 <= width <= 4 * (i32::MAX as int),
                    0 <= k < n,
                    hi == (k + 1) * width,
                    1 <= j <= len,
                    forall|i: int| 0 <= i < j ==> covers(s, n as int, k as int, i),
                ensures
                    1 <= j <= len,
                    forall|i: int| 0 <= i < j ==> covers(s, n as int, k as int, i),
                    j == len || !covers(s, n as int, k as int, j as int),
                decreases len - j,
            {
                let off = self.weights[j].index as i128 - start;
                assert(0 <= off <= 4 * (i32::MAX as int));
                assert(0 <= n * off <= 0x1_0000_0000_0000_0000 * 4 * (i32::MAX as int)) by (nonlinear_arith)
                    requires 0 <= off <= 4 * (i32::MAX as int), 0 <= n <= 0xffff_ffff_ffff_ffff;
                if (n as i128) * off <= hi {
                    j += 1;
                } else {
                    break;
                }
            }
            proof {
                assert forall|i: int| j <= i < len implies !covers(s, n as int, k as int, i) by {
                    if covers(s, n as int, k as int, i) {
                        lemma_covers_prefix(s, n as int, k as int, j as int, i);
                    }
                }
            }
            out.push(j - 1);
            proof {
                let k1 = k + 1;
                assert forall|i: int| 0 <= i < j implies #[trigger] covers(s, n as int, k1, i) by {
                    lemma_covers_next_frame(s, n as int, k as int, i);
                }
            }
            k += 1;
        }
        out
    }

    /// The "split" of the genome into `amount` values: frame `k` of `amount`
    /// equal frames over the domain takes the squashed value `vals[w]` of its
    /// winning entry `w`. `vals` holds the squashed value of each entry.
    pub fn get_split_vals(&self, vals: &Vec<i64>, amount: usize) -> (r: Vec<i64>)
        requires
            self.wf(),
            vals@.len() == self@.len(),
        ensures
            r@.len() == amount,
            forall|k: int|
                0 <= k < amount ==> #[trigger] r@[k] == vals@[winner(self@, amount as int, k)],
            forall|k: int|
                0 <= k < amount ==> is_winner(self@, amount as int, k, #[trigger] winner(self@, amount as int, k)),
    {
        let winners = self.frame_winners(amount);
        let mut out: Vec<i64> = Vec::new();
        let mut k: usize = 0;
        while k < amount
            invariant
                0 <= k <= amount,
                winners@.len() == amount,
                vals@.len() == self@.len(),
                forall|m: int| 0 <= m < amount ==> is_winner(self@, amount as int, m, #[trigger] winners@[m] as int),
                out@.len() == k,
                forall|m: int|
                    0 <= m < k ==> #[trigger] out@[m] == vals@[winner(self@, amount as int, m)],
                forall|m: int|
                    0 <= m < k ==> is_winner(self@, amount as int, m, #[trigger] winner(self@, amount as int, m)),
            decreases amount - k,
        {
            let w = winners[k];
            proof {
                lemma_winner_unique(self@, amount as int, k as int, w as int);
            }
            out.push(vals[w]);
            k += 1;
        }
        out
    }

    /// The genome of the single zero-valued entry.
    pub fn placeholder() -> (r: WeightList)
        ensures
            r.wf(),
            r@ == seq![zero_weight()],
    {
        let w = Weight { index: 0, range: 0, base: 0, sensitivity: Sensitivity { index: 0, weight: 0 } };
        let v = vec![w];
        assert(v@ =~= seq![zero_weight()]);
        WeightList { weights: v }
    }

    /// An entry-for-entry copy.
    pub fn duplicate(&self) -> (r: WeightList)
        ensures
            r@ == self@,
    {
        WeightList { weights: copy_range(&self.weights, 0, self.weights.len()) }
    }

    /// The entries at positions `lo..hi`, as a genome of their own; an empty
    /// window is an error.
    pub fn window(&self, lo: usize, hi: usize) -> (r: Result<WeightList, DecodeError>)
        requires
            self.wf(),
            lo <= hi <= self@.len(),
        ensures
            lo == hi <==> r is Err,
            r is Err ==> r == Err::<WeightList, DecodeError>(DecodeError::DegenerateWindow),
            r matches Ok(l) ==> l.wf() && l@ == self@.subrange(lo as int, hi as int),
    {
        if lo == hi {
            return Err(DecodeError::DegenerateWindow);
        }
        Ok(WeightList { weights: copy_range(&self.weights, lo, hi) })
    }

    /// Adds one entry at its place in index order, after entries of equal index.
    pub fn append(&mut self, weight: Weight)
        requires
            old(self).wf(),
        ensures
            final(self).wf(),
            final(self)@.to_multiset() == old(self)@.to_multiset().insert(weight),
    {
        let p = insertion_point(&self.weights, weight);
        let ghost before = self.weights@;
        self.weights.insert(p, weight);
        proof {
            vstd::seq_lib::to_multiset_insert(before, p as int, weight);
        }
    }

    /// Adds every entry of `weights`, each at its place in index order.
    pub fn extend(&mut self, weights: Vec<Weight>)
        requires
            old(self).wf(),
        ensures
            final(self).wf(),
            final(self)@.to_multiset() == old(self)@.to_multiset().add(weights@.to_multiset()),
    {
        let ghost start = self@.to_multiset();
        let mut i: usize = 0;
        proof {
            assert(weights@.subrange(0, 0) =~= Seq::<Weight>::empty());
            vstd::seq_lib::to_multiset_len(weights@.subrange(0, 0));
            assert(start.add(weights@.subrange(0, 0).to_multiset()) =~= start);
        }
        while i < weights.len()
            invariant
                0 <= i <= weights@.len(),
                self.wf(),
                self@.to_multiset() == start.add(weights@.subrange(0, i as int).to_multiset()),
            decreases weights@.len() - i,
        {
            let w = weights[i];
            let ghost m = self@.to_multiset();
            self.append(w);
            proof {
                assert(weights@.subrange(0, i + 1) == weights@.subrange(0, i as int).push(w));
                vstd::seq_lib::to_multiset_build(weights@.subrange(0, i as int), w);
                assert(self@.to_multiset() =~= start.add(weights@.subrange(0, i + 1).to_multiset()));
            }
            i += 1;
        }
        assert(weights@.subrange(0, weights@.len() as int) == weights@);
    }

    /// Removes the entry at `index`, unless it is the only one: a genome never
    /// becomes empty.
    pub fn remove(&mut self, index: usize) -> (r: Result<Weight, ConfigError>)
        requires
            old(self).wf(),
            index < old(self)@.len(),
        ensures
            final(self).wf(),
            old(self)@.len() == 1 ==> r == Err::<Weight, ConfigError>(ConfigError::EmptyGenome)
                && final(self)@ == old(self)@,
            old(self)@.len() > 1 ==> r == Ok::<Weight, ConfigError>(old(self)@[index as int])
                && final(self)@ == old(self)@.remove(index as int),
    {
        if self.weights.len() == 1 {
            return Err(ConfigError::EmptyGenome);
        }
        let w = self.weights.remove(index);
        Ok(w)
    }

    /// A random genome built from uniform draws: the first gives the number
    /// of entries, each entry then takes five (see [`seed_entry`]).
    pub fn from_draws(draws: &Vec<u64>) -> (r: WeightList)
        requires
            draws@.len() >= 1,
            draws@.len() >= 1 + 5 * seed_count(draws@[0]),
        ensures
            r.wf(),
            r@.to_multiset() == seed_entries(draws@).to_multiset(),
            forall|k: i32| #[trigger] r@.filter(has_index(k)) == seed_entries(draws@).filter(has_index(k)),
    {
        let count: usize = 100 + (draws[0] % 1000) as usize;
        let mut entries: Vec<Weight> = Vec::new();
        let mut j: usize = 0;
        while j < count
            invariant
                0 <= j <= count,
                count == seed_count(draws@[0]),
                draws@.len() >= 1 + 5 * count,
                entries@ == seed_entries(draws@).subrange(0, j as int),
            decreases count - j,
        {
            let b = 1 + 5 * j;
            let w = Weight {
                index: (draws[b] % 100_000_000) as i32,
                range: (draws[b + 1] % 100_000_000) as i32,
                base: ((draws[b + 2] % 1_000_000_000) as i64 - 500_000_000) as i32,
                sensitivity: Sensitivity {
                    index: (draws[b + 3] % 100) as usize,
                    weight: ((draws[b + 4] % 1_000_000_000) as i64 - 500_000_000) as i32,
                },
            };
            assert(w == seed_entry(draws@, 1 + 5 * j));
            entries.push(w);
            assert(entries@ =~= seed_entries(draws@).subrange(0, j + 1));
            j += 1;
        }
        assert(entries@ =~= seed_entries(draws@));
        match WeightList::new(entries) {
            Ok(l) => l,
            Err(_) => WeightList::placeholder(),
        }
    }

    /// Sorts the entries by index, entries of equal index keeping their input
    /// order; fails on an empty sequence.
    pub fn new(weights: Vec<Weight>) -> (r: Result<WeightList, ConfigError>)
        ensures
            weights@.len() == 0 <==> r is Err,
            r is Err ==> r == Err::<WeightList, ConfigError>(ConfigError::EmptyGenome),
            r matches Ok(l) ==> l.wf() && l@.to_multiset() == weights@.to_multiset(),
            r matches Ok(l) ==> forall|k: i32|
                #[trigger] l@.filter(has_index(k)) == weights@.filter(has_index(k)),
    {
        if weights.len() == 0 {
            return Err(ConfigError::EmptyGenome);
        }
        let sorted = sort_by_index(&weights);
        proof {
            vstd::seq_lib::to_multiset_len(sorted@);
            vstd::seq_lib::to_multiset_len(weights@);
        }
        Ok(WeightList { weights: sorted })
    }
}

/// Strength of a signal of the given amount in a cell of the given size:
/// `amount / cell_size` rounded toward zero, and zero for a cell of size zero.
pub open spec fn strength(amount: int, cell_size: int) -> int {
    if cell_size > 0 {
        amount * ONE / cell_size
    } else if cell_size < 0 {
        -(amount * ONE / (-cell_size))
    } else {
        0
    }
}

/// What the squashing function is applied to for entry `w`: its base plus the
/// weighted strength of its signal, where the signal exists.
pub open spec fn activation_input(w: Weight, cell_size: int, signals: Seq<i64>) -> int {
    let magnitude = if w.sensitivity.index < signals.len() {
        trunc_div(
            strength(signals[w.sensitivity.index as int] as int, cell_size) * w.sensitivity.weight,
            ONE as int,
        )
    } else {
        0
    };
    clamp_int(w.base + magnitude, -ACTIVATION_INPUT_CAP, ACTIVATION_INPUT_CAP as int)
}

pub open spec fn signals_ok(signals: Seq<i64>) -> bool {
    forall|i: int| 0 <= i < signals.len() ==> 0 <= #[trigger] signals[i] <= POOL_CAP
}

/// Largest `index + range` over the first `m` entries, and at least the first index.
pub open spec fn end_upto(s: Seq<Weight>, m: int) -> int
    decreases m,
{
    if m <= 0 {
        s[0].index as int
    } else {
        max_int(end_upto(s, m - 1), s[m - 1].index + s[m - 1].range)
    }
}

/// Right end of the domain that the entries span.
pub open spec fn domain_end(s: Seq<Weight>) -> int {
    end_upto(s, s.len() as int)
}

/// Entry `j` lies at or before the end of frame `k` of `n` equal frames over
/// the domain: `index_j - start <= (k + 1) * (end - start) / n`, without division.
pub open spec fn covers(s: Seq<Weight>, n: int, k: int, j: int) -> bool {
    n * (s[j].index - s[0].index) <= (k + 1) * (domain_end(s) - s[0].index)
}

/// `w` is the last entry reached by frame `k`: a forward scan from the frame's
/// start overwrites the frame's value with each entry up to the frame's end,
/// so the value that stays is that of the last entry not past the end.
pub open spec fn is_winner(s: Seq<Weight>, n: int, k: int, w: int) -> bool {
    &&& 0 <= w < s.len()
    &&& covers(s, n, k, w)
    &&& forall|j: int| w < j < s.len() ==> !covers(s, n, k, j)
}

/// The entry whose squashed value frame `k` of `n` takes.
pub open spec fn winner(s: Seq<Weight>, n: int, k: int) -> int {
    choose|w: int| is_winner(s, n, k, w)
}

pub(crate) proof fn lemma_winner_unique(s: Seq<Weight>, n: int, k: int, w: int)
    requires
        is_winner(s, n, k, w),
    ensures
        winner(s, n, k) == w,
{
    let c = winner(s, n, k);
    assert(is_winner(s, n, k, c));
    if c < w {
        assert(!covers(s, n, k, w));
    } else if c > w {
        assert(!covers(s, n, k, c));
    }
}

proof fn lemma_end_bounds(s: Seq<Weight>, m: int)
    requires
        0 <= m <= s.len(),
        s.len() > 0,
    ensures
        s[0].index <= end_upto(s, m) <= 2 * (i32::MAX as int),
        forall|j: int| 0 <= j < m ==> s[j].index + s[j].range <= end_upto(s, m),
    decreases m,
{
    if m > 0 {
        lemma_end_bounds(s, m - 1);
    }
}

proof fn lemma_covers_prefix(s: Seq<Weight>, n: int, k: int, i: int, j: int)
    requires
        sorted_by_index(s),
        s.len() > 0,
        n >= 0,
        0 <= i <= j < s.len(),
        covers(s, n, k, j),
    ensures
        covers(s, n, k, i),
{
    let a = s[i].index - s[0].index;
    let b = s[j].index - s[0].index;
    assert(0 <= a <= b);
    assert(n * a <= n * b) by (nonlinear_arith)
        requires 0 <= a <= b, n >= 0;
}

proof fn lemma_covers_next_frame(s: Seq<Weight>, n: int, k: int, j: int)
    requires
        s.len() > 0,
        0 <= j < s.len(),
        k >= 0,
        covers(s, n, k, j),
    ensures
        covers(s, n, k + 1, j),
{
    lemma_end_bounds(s, s.len() as int);
    let d = domain_end(s) - s[0].index;
    assert(d >= 0);
    assert((k + 1) * d <= (k + 2) * d) by (nonlinear_arith)
        requires d >= 0, k >= 0;
}

/// A genome of one entry gives every frame that entry's value, whatever
/// the number of frames: even a domain of zero width (an entry of range zero)
/// needs no division and gives every frame a defined value.
pub proof fn lemma_single_entry_constant(l: WeightList, n: int, k1: int, k2: int)
    requires
        l.wf(),
        l@.len() == 1,
        n >= 0,
        0 <= k1 < n,
        0 <= k2 < n,
    ensures
        winner(l@, n, k1) == 0,
        winner(l@, n, k2) == winner(l@, n, k1),
{
    let s = l@;
    lemma_end_bounds(s, 1);
    let d = domain_end(s) - s[0].index;
    assert(0 <= (k1 + 1) * d) by (nonlinear_arith)
        requires d >= 0, k1 >= 0;
    assert(0 <= (k2 + 1) * d) by (nonlinear_arith)
        requires d >= 0, k2 >= 0;
    assert(is_winner(s, n, k1, 0));
    assert(is_winner(s, n, k2, 0));
    lemma_winner_unique(s, n, k1, 0);
    lemma_winner_unique(s, n, k2, 0);
}

/// See [`strength`].
pub fn signal_strength(amount: i64, cell_size: i64) -> (r: i128)
    requires
        0 <= amount <= POOL_CAP,
    ensures
        r == strength(amount as int, cell_size as int),
        -POOL_CAP * ONE <= r <= POOL_CAP * ONE,
{
    let a = amount as i128;
    if cell_size == 0 {
        return 0;
    }
    assert(0 <= a * ONE <= POOL_CAP * ONE) by (nonlinear_arith)
        requires 0 <= a <= POOL_CAP;
    let size: i128 = if cell_size > 0 { cell_size as i128 } else { -(cell_size as i128) };
    let q = a * (ONE as i128) / size;
    assert(0 <= q <= a * ONE) by (nonlinear_arith)
        requires 0 <= a * ONE, size >= 1, q == (a * ONE) / (size as int);
    if cell_size > 0 {
        q
    } else {
        -q
    }
}

fn weight_activation_input(w: &Weight, cell_size: i64, signals: &Vec<i64>) -> (r: i64)
    requires
        signals_ok(signals@),
    ensures
        r == activation_input(*w, cell_size as int, signals@),
{
    let magnitude: i128 = if w.sensitivity.index < signals.len() {
        let st = signal_strength(signals[w.sensitivity.index], cell_size);
        let sw = w.sensitivity.weight as i128;
        assert(-POOL_CAP * ONE * 0x8000_0000 <= st * sw <= POOL_CAP * ONE * 0x8000_0000) by (nonlinear_arith)
            requires -POOL_CAP * ONE <= st <= POOL_CAP * ONE, -0x8000_0000 <= sw <= 0x8000_0000;
        crate::fixed::div_toward_zero(st * sw, ONE as i128)
    } else {
        0
    };
    let total: i128 = w.base as i128 + magnitude;
    if total < -(ACTIVATION_INPUT_CAP as i128) {
        -ACTIVATION_INPUT_CAP
    } else if total > ACTIVATION_INPUT_CAP as i128 {
        ACTIVATION_INPUT_CAP
    } else {
        total as i64
    }
}

proof fn lemma_filter_none(s: Seq<Weight>, k: i32)
    requires
        forall|i: int| 0 <= i < s.len() ==> s[i].index != k,
    ensures
        s.filter(has_index(k)) == Seq::<Weight>::empty(),
    decreases s.len(),
{
    reveal(Seq::filter);
    if s.len() > 0 {
        lemma_filter_none(s.drop_last(), k);
    }
}

/// Inserting `w` at its insertion point adds it last among the entries of
/// its index and leaves the entries of every other index as they were.
proof fn lemma_filter_insert(s: Seq<Weight>, p: int, w: Weight, k: i32)
    requires
        0 <= p <= s.len(),
        forall|i: int| 0 <= i < p ==> s[i].index <= w.index,
        forall|i: int| p <= i < s.len() ==> s[i].index > w.index,
    ensures
        s.insert(p, w).filter(has_index(k)) == if w.index == k {
            s.filter(has_index(k)).push(w)
        } else {
            s.filter(has_index(k))
        },
{
    let a = s.subrange(0, p);
    let b = s.subrange(p, s.len() as int);
    assert(s == a + b);
    assert(s.insert(p, w) == a.push(w) + b);
    Seq::filter_distributes_over_add(a, b, has_index(k));
    Seq::filter_distributes_over_add(a.push(w), b, has_index(k));
    a.lemma_filter_push(w, has_index(k));
    if w.index == k {
        lemma_filter_none(b, k);
        assert(b.filter(has_index(k)) == Seq::<Weight>::empty());
        assert(a.filter(has_index(k)).push(w) + Seq::<Weight>::empty() == a.filter(has_index(k)).push(w));
        assert(a.filter(has_index(k)) + Seq::<Weight>::empty() == a.filter(has_index(k)));
    }
}

/// A copy of `v[lo..hi]`.
pub fn copy_range<T: Copy>(v: &Vec<T>, lo: usize, hi: usize) -> (r: Vec<T>)
    requires
        lo <= hi <= v@.len(),
    ensures
        r@ == v@.subrange(lo as int, hi as int),
{
    let mut out: Vec<T> = Vec::new();
    let mut i: usize = lo;
    while i < hi
        invariant
            lo <= i <= hi <= v@.len(),
            out@ == v@.subrange(lo as int, i as int),
        decreases hi - i,
    {
        out.push(v[i]);
        assert(out@ =~= v@.subrange(lo as int, i + 1));
        i += 1;
    }
    out
}

/// Position at which `w` goes so that `s` stays sorted, after any equal entries.
fn insertion_point(s: &Vec<Weight>, w: Weight) -> (p: usize)
    requires
        sorted_by_index(s@),
    ensures
        p <= s@.len(),
        forall|i: int| 0 <= i < p ==> s@[i].index <= w.index,
        forall|i: int| p <= i < s@.len() ==> s@[i].index > w.index,
{
    let mut lo: usize = 0;
    let mut hi: usize = s.len();
    while lo < hi
        invariant
            0 <= lo <= hi <= s@.len(),
            sorted_by_index(s@),
            forall|i: int| 0 <= i < lo ==> s@[i].index <= w.index,
            forall|i: int| hi <= i < s@.len() ==> s@[i].index > w.index,
        decreases hi - lo,
    {
        let mid = lo + (hi - lo) / 2;
        if s[mid].index <= w.index {
            lo = mid + 1;
        } else {
            hi = mid;
        }
    }
    lo
}

/// A copy of `v` sorted ascending by index (entries of equal index keep their order).
fn sort_by_index(v: &Vec<Weight>) -> (r: Vec<Weight>)
    ensures
        sorted_by_index(r@),
        r@.to_multiset() == v@.to_multiset(),
        forall|k: i32| #[trigger] r@.filter(has_index(k)) == v@.filter(has_index(k)),
{
    let mut out: Vec<Weight> = Vec::new();
    let mut i: usize = 0;
    assert(out@ =~= v@.subrange(0, 0));
    while i < v.len()
        invariant
            0 <= i <= v@.len(),
            sorted_by_index(out@),
            out@.to_multiset() == v@.subrange(0, i as int).to_multiset(),
            forall|k: i32| #[trigger] out@.filter(has_index(k)) == v@.subrange(0, i as int).filter(has_index(k)),
        decreases v@.len() - i,
    {
        let w = v[i];
        let p = insertion_point(&out, w);
        let ghost before = out@;
        out.insert(p, w);
        assert(out@ == before.insert(p as int, w));
        assert(v@.subrange(0, i + 1) == v@.subrange(0, i as int).push(w));
        proof {
            vstd::seq_lib::to_multiset_insert(before, p as int, w);
            vstd::seq_lib::to_multiset_build(v@.subrange(0, i as int), w);
            assert forall|k: i32| #[trigger] out@.filter(has_index(k)) == v@.subrange(0, i + 1).filter(has_index(k)) by {
                lemma_filter_insert(before, p as int, w, k);
                v@.subrange(0, i as int).lemma_filter_push(w, has_index(k));
            }
        }
        i += 1;
    }
    assert(v@.subrange(0, v@.len() as int) == v@);
    out
}

} // verus!
