use cell_sim::fixed::ONE;
use cell_sim::genome::{signal_strength, ConfigError, DecodeError, Sensitivity, Weight, WeightList};

fn w(index: i32, range: i32, base: i32) -> Weight {
    Weight { index, range, base, sensitivity: Sensitivity { index: 0, weight: 0 } }
}

fn squash(x: i64) -> i64 {
    ((x as f64 / 1e6).tanh() * 1e6).round() as i64
}

struct Lcg(u64);

impl Lcg {
    fn next(&mut self) -> u64 {
        self.0 = self.0.wrapping_mul(6364136223846793005).wrapping_add(1442695040888963407);
        self.0 >> 33
    }
    fn range(&mut self, lo: i64, hi: i64) -> i64 {
        lo + (self.next() % ((hi - lo + 1) as u64)) as i64
    }
}

#[test]
fn new_rejects_empty() {
    assert_eq!(WeightList::new(vec![]).unwrap_err(), ConfigError::EmptyGenome);
}

#[test]
fn new_sorts_by_index() {
    let l = WeightList::new(vec![w(30, 0, 1), w(-5, 0, 2), w(12, 0, 3), w(12, 0, 4)]).unwrap();
    let idx: Vec<i32> = l.get().iter().map(|x| x.index).collect();
    assert_eq!(idx, vec![-5, 12, 12, 30]);
    assert_eq!(l.len(), 4);
}

#[test]
fn new_sorts_random_entry_sets() {
    let mut g = Lcg(7);
    for _ in 0..200 {
        let n = g.range(1, 40) as usize;
        let v: Vec<Weight> = (0..n).map(|_| w(g.range(-1000, 1000) as i32, 0, 0)).collect();
        let l = WeightList::new(v.clone()).unwrap();
        let got = l.get();
        assert_eq!(got.len(), n);
        for k in 1..n {
            assert!(got[k - 1].index <= got[k].index);
        }
        let mut a: Vec<i32> = v.iter().map(|x| x.index).collect();
        let mut b: Vec<i32> = got.iter().map(|x| x.index).collect();
        a.sort();
        b.sort();
        assert_eq!(a, b);
    }
}

#[test]
fn append_and_extend_keep_order() {
    let mut l = WeightList::new(vec![w(10, 0, 0), w(30, 0, 0)]).unwrap();
    l.append(w(20, 0, 0));
    l.extend(vec![w(40, 0, 0), w(0, 0, 0)]);
    let idx: Vec<i32> = l.get().iter().map(|x| x.index).collect();
    assert_eq!(idx, vec![0, 10, 20, 30, 40]);
}

#[test]
fn remove_never_empties() {
    let mut l = WeightList::new(vec![w(1, 0, 0), w(2, 0, 0)]).unwrap();
    assert_eq!(l.remove(0), Ok(w(1, 0, 0)));
    assert_eq!(l.remove(0), Err(ConfigError::EmptyGenome));
    assert_eq!(l.len(), 1);
}

#[test]
fn value_at_missing_signal_is_base() {
    let mut e = w(0, 0, 250_000);
    e.sensitivity = Sensitivity { index: 5, weight: 3 * ONE as i32 };
    let l = WeightList::new(vec![e]).unwrap();
    assert_eq!(l.get_val_at(0, ONE, &vec![ONE, ONE]), Some(250_000));
    assert_eq!(l.get_val_at(1, ONE, &vec![ONE, ONE]), None);
}

#[test]
fn value_at_weighs_signal_strength() {
    let mut e = w(0, 0, 100_000);
    e.sensitivity = Sensitivity { index: 1, weight: 500_000 };
    let l = WeightList::new(vec![e]).unwrap();
    // strength = 3 / 2 = 1.5; magnitude = 1.5 * 0.5 = 0.75
    assert_eq!(l.get_val_at(0, 2 * ONE, &vec![0, 3 * ONE]), Some(850_000));
    // size zero: strength is zero
    assert_eq!(l.get_val_at(0, 0, &vec![0, 3 * ONE]), Some(100_000));
    // negative size: strength -1.5, magnitude -0.75
    assert_eq!(l.get_val_at(0, -2 * ONE, &vec![0, 3 * ONE]), Some(-650_000));
}

#[test]
fn strength_follows_sign_of_size() {
    assert_eq!(signal_strength(ONE, -ONE), -(ONE as i128));
    assert_eq!(signal_strength(ONE, 3 * ONE), 333_333);
    assert_eq!(signal_strength(ONE, -3 * ONE), -333_333);
    assert_eq!(signal_strength(ONE, 0), 0);
}

#[test]
fn split_vals_lengths() {
    let l = WeightList::new(vec![w(0, 10, 0), w(5, 10, 0), w(20, 0, 0)]).unwrap();
    let vals: Vec<i64> = l.activation_inputs(ONE, &vec![]).into_iter().map(squash).collect();
    for n in [0usize, 1, 100] {
        let out = l.get_split_vals(&vals, n);
        assert_eq!(out.len(), n);
        assert!(out.iter().all(|v| (-ONE..=ONE).contains(v)));
    }
}

#[test]
fn split_vals_last_entry_wins() {
    // domain [0, 40], four frames of width 10 ending at 10, 20, 30, 40
    let l = WeightList::new(vec![w(0, 0, 0), w(5, 0, 0), w(10, 0, 0), w(25, 0, 0), w(30, 10, 0)])
        .unwrap();
    let vals = vec![1, 2, 3, 4, 5];
    assert_eq!(l.get_split_vals(&vals, 4), vec![3, 3, 5, 5]);
    assert_eq!(l.frame_winners(4), vec![2, 2, 4, 4]);
    assert_eq!(l.get_split_vals(&vals, 1), vec![5]);
}

#[test]
fn single_entry_zero_range_is_constant() {
    let l = WeightList::new(vec![w(7 * ONE as i32, 0, 300_000)]).unwrap();
    let vals = vec![squash(300_000)];
    for n in [1usize, 2, 17, 100] {
        let out = l.get_split_vals(&vals, n);
        assert_eq!(out.len(), n);
        assert!(out.iter().all(|v| *v == vals[0]));
    }
}

#[test]
fn window_of_nothing_is_degenerate() {
    let l = WeightList::new(vec![w(1, 0, 0), w(2, 0, 0), w(3, 0, 0)]).unwrap();
    assert_eq!(l.window(1, 1).unwrap_err(), DecodeError::DegenerateWindow);
    let part = l.window(1, 3).unwrap();
    let idx: Vec<i32> = part.get().iter().map(|x| x.index).collect();
    assert_eq!(idx, vec![2, 3]);
}

#[test]
fn activation_inputs_cover_every_entry() {
    let l = WeightList::new(vec![w(0, 0, -ONE as i32), w(1, 0, 2 * ONE as i32)]).unwrap();
    assert_eq!(l.activation_inputs(ONE, &vec![]), vec![-ONE, 2 * ONE]);
}

#[test]
fn equal_indices_keep_input_order() {
    let l = WeightList::new(vec![w(5, 0, 1), w(1, 0, 2), w(5, 0, 3), w(5, 0, 4), w(1, 0, 5)]).unwrap();
    let bases: Vec<i32> = l.get().iter().map(|x| x.base).collect();
    assert_eq!(bases, vec![2, 5, 1, 3, 4]);
}
