//! Decoding a genome into one optional parameter bundle per catalog slot.
use vstd::prelude::*;
use crate::fixed::{ONE, max_int, min_int};
use crate::genome::{Sensitivity, Weight, WeightList, winner, is_winner, zero_weight, copy_range};
use crate::behavior::{ComponentBuilderProps, CATALOG_LEN};

verus! {

/// Values per catalog slot in the argument window: activation, size, proteins.
pub const ARGS_CHUNK: usize = 3;

/// Values per decoded sensitivity entry.
pub const ENTRY_CHUNK: usize = 5;

/// Decoded RNA: slot `i` holds the parameters of catalog kind `i`, if active.
pub type RNA = Vec<Option<ComponentBuilderProps>>;

/// Squashed values lie in `[-ONE, ONE]`.
pub open spec fn squashed(vals: Seq<i64>) -> bool {
    forall|i: int| 0 <= i < vals.len() ==> -ONE <= #[trigger] vals[i] <= ONE
}

/// Sensitivity entries per decoded bundle: the floor of the first entry's
/// squashed value, and zero when that is negative.
pub open spec fn window_count(v0: int) -> int {
    if v0 <= 0 { 0 } else { v0 / ONE as int }
}

/// Entry `i` reaches the threshold: `index * range >= threshold`.
pub open spec fn reaches(w: Weight, threshold: int) -> bool {
    w.index * w.range >= threshold * ONE * ONE
}

/// First position from `i` on whose entry reaches the threshold, or the length.
pub open spec fn first_reaching(s: Seq<Weight>, threshold: int, i: int) -> int
    decreases s.len() - i,
{
    if i >= s.len() {
        s.len() as int
    } else if reaches(s[i], threshold) {
        i
    } else {
        first_reaching(s, threshold, i + 1)
    }
}

/// Where the argument window ends: the first entry whose `index * range`
/// reaches `max(window, 1)`, never before position two, two if none does,
/// and never past the end.
pub open spec fn split_point(s: Seq<Weight>, window: int) -> int {
    let f = first_reaching(s, max_int(window, 1), 0);
    let at = if f >= s.len() { 2 } else { max_int(f, 2) };
    min_int(at, s.len() as int)
}

/// The entries of a window and their squashed values; an empty window is
/// replaced by the zero-valued entry, whose squashed value is zero.
pub open spec fn window_part(s: Seq<Weight>, vals: Seq<i64>, lo: int, hi: int) -> (Seq<Weight>, Seq<i64>) {
    if lo < hi {
        (s.subrange(lo, hi), vals.subrange(lo, hi))
    } else {
        (seq![zero_weight()], seq![0i64])
    }
}

/// Value `k` of `n` projected from a window.
pub open spec fn projected(part: (Seq<Weight>, Seq<i64>), n: int, k: int) -> int {
    part.1[winner(part.0, n, k)] as int
}

/// Signal index read from a decoded value: its floor, and zero below zero.
pub open spec fn signal_index(v: int) -> int {
    if v >= 0 { v / ONE as int } else { 0 }
}

/// The entry decoded from the five values at `b`: index, base, range,
/// signal index, signal weight.
pub open spec fn entry_at(vals: Seq<i64>, b: int) -> Weight {
    Weight {
        index: vals[b] as i32,
        base: vals[b + 1] as i32,
        range: vals[b + 2] as i32,
        sensitivity: Sensitivity {
            index: signal_index(vals[b + 3] as int) as usize,
            weight: vals[b + 4] as i32,
        },
    }
}

/// The sensitivity entries of slot `i`, each `window` slots holding
/// `5 * window` values.
pub open spec fn slot_entries(vals: Seq<i64>, window: int, i: int) -> Seq<Weight> {
    Seq::new(window as nat, |j: int| entry_at(vals, i * 5 * window + 5 * j))
}

/// What a decoded slot holds, given the genome and its squashed values.
pub open spec fn slot_matches(s: Seq<Weight>, vals: Seq<i64>, i: int, slot: Option<ComponentBuilderProps>) -> bool {
    let window = window_count(vals[0] as int);
    let at = split_point(s, window);
    let args = window_part(s, vals, 0, at);
    let sens = window_part(s, vals, at, s.len() as int);
    let n_args = CATALOG_LEN * ARGS_CHUNK;
    let n_sens = CATALOG_LEN * ENTRY_CHUNK * window;
    let sens_vals = Seq::new(n_sens as nat, |k: int| projected(sens, n_sens, k) as i64);
    let entries = slot_entries(sens_vals, window, i);
    if projected(args, n_args, 3 * i) > 0 {
        slot matches Some(p) && {
            &&& p.size == projected(args, n_args, 3 * i + 1)
            &&& p.proteins == projected(args, n_args, 3 * i + 2)
            &&& p.weightlist.wf()
            &&& if window == 0 {
                p.weightlist@ == seq![zero_weight()]
            } else {
                p.weightlist@.to_multiset() == entries.to_multiset()
            }
        }
    } else {
        slot is None
    }
}

/// Every filled slot of decoded RNA meets what [`crate::behavior::BehaviorUnit::build`]
/// asks of its bundle, so each can be built by its catalog kind.
pub proof fn lemma_decoded_slots_build(s: Seq<Weight>, vals: Seq<i64>, i: int, slot: Option<ComponentBuilderProps>)
    requires
        slot_matches(s, vals, i, slot),
    ensures
        slot matches Some(p) ==> p.weightlist.wf(),
{
}

fn window_count_exec(v0: i64) -> (r: usize)
    requires
        -ONE <= v0 <= ONE,
    ensures
        r == window_count(v0 as int),
        r <= 1,
{
    if v0 <= 0 {
        0
    } else {
        (v0 / ONE) as usize
    }
}

fn split_point_exec(l: &WeightList, window: usize) -> (r: usize)
    requires
        l.wf(),
    ensures
        r == split_point(l@, window as int),
        r <= l@.len(),
{
    let s = l.get();
    let threshold: i128 = if window > 1 { window as i128 } else { 1 };
    let mut i: usize = 0;
    proof {
        assert(first_reaching(s@, max_int(window as int, 1), 0) == first_reaching(s@, threshold as int, 0));
    }
    while i < s.len()
        invariant
            0 <= i <= s@.len(),
            threshold == max_int(window as int, 1),
            1 <= threshold <= usize::MAX,
            first_reaching(s@, threshold as int, 0) == first_reaching(s@, threshold as int, i as int),
        ensures
            0 <= i <= s@.len(),
            first_reaching(s@, threshold as int, 0) == i,
        decreases s@.len() - i,
    {
        let w = s[i];
        assert(-0x8000_0000 * 0x8000_0000 <= w.index * w.range <= 0x8000_0000 * 0x8000_0000) by (nonlinear_arith)
            requires i32::MIN <= w.index <= i32::MAX, i32::MIN <= w.range <= i32::MAX;
        let prod = w.index as i128 * w.range as i128;
        assert(threshold * ONE * ONE <= 0x1_0000_0000_0000_0000 * 1_000_000_000_000) by (nonlinear_arith)
            requires 1 <= threshold <= usize::MAX;
        if prod >= threshold * 1_000_000_000_000 {
            break;
        }
        i += 1;
    }
    let len = s.len();
    if i >= len {
        if 2 <= len { 2 } else { len }
    } else {
        let at = if i > 2 { i } else { 2 };
        if at <= len { at } else { len }
    }
}

/// Decodes a genome into one optional bundle per catalog slot.
///
/// `vals` holds the squashed value of each genome entry in the cell's current
/// state. The first value gives the number of sensitivity entries per bundle;
/// the genome is cut into an argument window and a sensitivity window; the
/// argument window is projected onto three values per slot (activation, size,
/// proteins) and the sensitivity window onto five values per sensitivity entry
/// per slot. A slot is filled when its activation is positive.
pub fn build_rna(genome: &WeightList, vals: &Vec<i64>) -> (r: RNA)
    requires
        genome.wf(),
        vals@.len() == genome@.len(),
        squashed(vals@),
    ensures
        r@.len() == CATALOG_LEN,
        forall|i: int| 0 <= i < CATALOG_LEN ==> slot_matches(genome@, vals@, i, #[trigger] r@[i]),
{
    let ghost s = genome@;
    let len = genome.len();
    let window = window_count_exec(vals[0]);
    let at = split_point_exec(genome, window);

    let (args_list, args_vals) = match genome.window(0, at) {
        Ok(l) => (l, copy_range(vals, 0, at)),
        Err(_) => (WeightList::placeholder(), vec![0i64]),
    };
    let (sens_list, sens_vals) = match genome.window(at, len) {
        Ok(l) => (l, copy_range(vals, at, len)),
        Err(_) => (WeightList::placeholder(), vec![0i64]),
    };
    let ghost args = window_part(s, vals@, 0, at as int);
    let ghost sens = window_part(s, vals@, at as int, len as int);
    assert(args_list@ == args.0 && args_vals@ =~= args.1);
    assert(sens_list@ == sens.0 && sens_vals@ =~= sens.1);

    let n_args: usize = CATALOG_LEN * ARGS_CHUNK;
    let per: usize = ENTRY_CHUNK * window;
    let n_sens: usize = CATALOG_LEN * per;
    let a = args_list.get_split_vals(&args_vals, n_args);
    let v = sens_list.get_split_vals(&sens_vals, n_sens);
    assert(squashed(a@)) by {
        assert forall|k: int| 0 <= k < a@.len() implies -ONE <= #[trigger] a@[k] <= ONE by {
            assert(is_winner(args.0, n_args as int, k, winner(args.0, n_args as int, k)));
        }
    }
    assert(squashed(v@)) by {
        assert forall|k: int| 0 <= k < v@.len() implies -ONE <= #[trigger] v@[k] <= ONE by {
            assert(is_winner(sens.0, n_sens as int, k, winner(sens.0, n_sens as int, k)));
        }
    }
    let ghost sv = Seq::new(n_sens as nat, |k: int| projected(sens, n_sens as int, k) as i64);
    assert(v@ =~= sv);

    let mut rna: RNA = Vec::new();
    let mut i: usize = 0;
    while i < CATALOG_LEN
        invariant
            0 <= i <= CATALOG_LEN,
            s == genome@,
            vals@.len() == s.len(),
            s.len() > 0,
            window <= 1,
            per == 5 * window,
            n_args == CATALOG_LEN * ARGS_CHUNK,
            n_sens == CATALOG_LEN * per,
            a@.len() == n_args,
            v@.len() == n_sens,
            squashed(a@),
            squashed(v@),
            v@ == sv,
            forall|k: int| 0 <= k < n_args ==> #[trigger] a@[k] == projected(args, n_args as int, k),
            window == window_count(vals@[0] as int),
            at == split_point(s, window as int),
            args == window_part(s, vals@, 0, at as int),
            sens == window_part(s, vals@, at as int, s.len() as int),
            sv == Seq::new(n_sens as nat, |k: int| projected(sens, n_sens as int, k) as i64),
            rna@.len() == i,
            forall|m: int| 0 <= m < i ==> slot_matches(s, vals@, m, #[trigger] rna@[m]),
        decreases CATALOG_LEN - i,
    {
        let activation = a[3 * i];
        if activation > 0 {
            let size = a[3 * i + 1];
            let proteins = a[3 * i + 2];
            let mut entries: Vec<Weight> = Vec::new();
            let mut j: usize = 0;
            while j < window
                invariant
                    0 <= j <= window <= 1,
                    0 <= i < CATALOG_LEN,
                    per == 5 * window,
                    v@.len() == CATALOG_LEN * per,
                    squashed(v@),
                    entries@ == slot_entries(v@, window as int, i as int).subrange(0, j as int),
                decreases window - j,
            {
                let b = i * per + 5 * j;
                assert(b + 4 < v@.len()) by (nonlinear_arith)
                    requires b == i * per + 5 * j, per == 5 * window, j < window, i < CATALOG_LEN,
                        v@.len() == CATALOG_LEN * per, CATALOG_LEN == 6;
                let raw_index = v[b + 3];
                let sig: usize = if raw_index >= 0 { (raw_index / ONE) as usize } else { 0 };
                let w = Weight {
                    index: v[b] as i32,
                    base: v[b + 1] as i32,
                    range: v[b + 2] as i32,
                    sensitivity: Sensitivity { index: sig, weight: v[b + 4] as i32 },
                };
                assert(w == entry_at(v@, i * 5 * window + 5 * j)) by {
                    assert(i * per == i * 5 * window) by (nonlinear_arith)
                        requires per == 5 * window;
                }
                entries.push(w);
                assert(entries@ =~= slot_entries(v@, window as int, i as int).subrange(0, j + 1));
                j += 1;
            }
            assert(entries@ =~= slot_entries(v@, window as int, i as int));
            let weightlist = match WeightList::new(entries) {
                Ok(l) => l,
                Err(_) => WeightList::placeholder(),
            };
            assert(-ONE <= a@[3 * i + 1] <= ONE && -ONE <= a@[3 * i + 2] <= ONE);
            assert(size == projected(args, n_args as int, 3 * i + 1));
            assert(proteins == projected(args, n_args as int, 3 * i + 2));
            assert(slot_entries(v@, window as int, i as int) == slot_entries(sv, window as int, i as int));
            assert(window == 0 ==> weightlist@ == seq![zero_weight()]);
            assert(window > 0 ==> weightlist@.to_multiset() == slot_entries(sv, window as int, i as int).to_multiset());
            rna.push(Some(ComponentBuilderProps { size: size as i32, proteins: proteins as i32, weightlist }));
        } else {
            rna.push(None);
        }
        assert(activation == projected(args, n_args as int, 3 * i));
        assert(slot_matches(s, vals@, i as int, rna@[i as int]));
        i += 1;
    }
    rna
}

} // verus!
