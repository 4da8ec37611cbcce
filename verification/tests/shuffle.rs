use shuffled::FixedRandom;
use shuffled::Shuffled;
use shuffled::UniformRandom;

#[test]
fn exhaustion_counts_steps() {
    let source: Vec<u64> = (0..5).collect();
    let mut it = source.as_slice().shuffled();
    for _ in 0..5 {
        assert!(it.next().is_some());
    }
    assert!(it.next().is_none());
    assert!(it.next().is_none());
    assert!(it.next().is_none());
}

#[test]
fn full_drain_is_permutation() {
    let source: Vec<u64> = (0..10).collect();
    let mut it = source.as_slice().shuffled();
    let mut produced: Vec<u64> = Vec::new();
    while let Some(e) = it.next() {
        produced.push(*e);
    }
    produced.sort();
    assert_eq!(produced, source);
}

#[test]
fn uniformity_over_orderings() {
    let source: Vec<u64> = vec![0, 1, 2];
    let mut counts = [0usize; 6];
    let rounds = 6000;
    for _ in 0..rounds {
        let mut it = source.as_slice().shuffled();
        let mut order: Vec<u64> = Vec::new();
        while let Some(e) = it.next() {
            order.push(*e);
        }
        let idx = match (order[0], order[1], order[2]) {
            (0, 1, 2) => 0,
            (0, 2, 1) => 1,
            (1, 0, 2) => 2,
            (1, 2, 0) => 3,
            (2, 0, 1) => 4,
            (2, 1, 0) => 5,
            _ => panic!("not a permutation: {:?}", order),
        };
        counts[idx] += 1;
    }
    // Each of the 6 orderings has expectation 1000; the bounds are far
    // wider than any plausible statistical fluctuation.
    for &c in counts.iter() {
        assert!(c > 700 && c < 1300, "skewed ordering counts: {:?}", counts);
    }
}

#[test]
fn remaining_count_after_each_step() {
    let source: Vec<u64> = (0..5).collect();
    let mut it = source.as_slice().shuffled();
    for k in 0..5usize {
        assert_eq!(it.size_hint(), (5 - k, Some(5 - k)));
        it.next();
    }
    assert_eq!(it.size_hint(), (0, Some(0)));
}

#[test]
fn drain_reports_remainder() {
    let source: Vec<u64> = (0..7).collect();
    let mut it = source.as_slice().shuffled();
    for _ in 0..3 {
        assert!(it.next().is_some());
    }
    assert_eq!(it.count(), 4);
}

#[test]
fn drain_of_untouched_sequence() {
    let source: Vec<u64> = (0..7).collect();
    let it = source.as_slice().shuffled();
    assert_eq!(it.count(), 7);
}

#[test]
fn determinism_fixed_draws() {
    let source: Vec<u64> = (0..8).collect();
    let draws: Vec<usize> = vec![3, 1, 4, 1, 5, 9, 2, 6];
    let mut a = source.as_slice().shuffled_by(FixedRandom::new(draws.clone()));
    let mut b = source.as_slice().shuffled_by(FixedRandom::new(draws));
    loop {
        match (a.next(), b.next()) {
            (Some(x), Some(y)) => assert_eq!(x, y),
            (None, None) => break,
            _ => panic!("sequences exhausted at different steps"),
        }
    }
}

#[test]
fn fixed_draws_exact_order() {
    // Drawing index 0 at every step swaps the last entry into the front,
    // so the emission order is the first element followed by the rest in
    // reverse.
    let source: Vec<u64> = vec![0, 1, 2, 3, 4];
    let draws: Vec<usize> = vec![0, 0, 0, 0, 0];
    let mut it = source.as_slice().shuffled_by(FixedRandom::new(draws));
    let mut order: Vec<u64> = Vec::new();
    while let Some(e) = it.next() {
        order.push(*e);
    }
    assert_eq!(order, vec![0, 4, 3, 2, 1]);
}

#[test]
fn replay_exact_order() {
    let source: Vec<u64> = vec![0, 1, 2, 3, 4];
    let draws: Vec<usize> = vec![0, 0, 0, 0, 0];
    let mut it = source.as_slice().shuffled_by(FixedRandom::new(draws));
    let order: Vec<u64> = it.replay().iter().map(|e| **e).collect();
    assert_eq!(order, vec![0, 4, 3, 2, 1]);
    assert_eq!(it.size_hint(), (0, Some(0)));
}

#[test]
fn replay_matches_stepwise_drain() {
    let source: Vec<u64> = (0..9).collect();
    let draws: Vec<usize> = vec![4, 4, 2, 0, 3, 1, 1, 0, 0];
    let mut a = source.as_slice().shuffled_by(FixedRandom::new(draws.clone()));
    let mut b = source.as_slice().shuffled_by(FixedRandom::new(draws));
    let replayed = a.replay();
    let mut stepped: Vec<&u64> = Vec::new();
    while let Some(e) = b.next() {
        stepped.push(e);
    }
    assert_eq!(replayed, stepped);
}

#[test]
fn end_to_end_example() {
    let source: Vec<u64> = vec![0, 1, 2, 3, 4];
    let mut it = source.as_slice().shuffled();
    let mut produced: Vec<u64> = Vec::new();
    for k in 0..5usize {
        match it.next() {
            Some(e) => produced.push(*e),
            None => panic!("exhausted after {} steps", k),
        }
        assert_eq!(it.size_hint().0, 4 - k);
    }
    assert!(it.next().is_none());
    produced.sort();
    assert_eq!(produced, source);
}

#[test]
fn empty_source() {
    let source: Vec<u64> = Vec::new();
    let mut it = source.as_slice().shuffled();
    assert_eq!(it.size_hint(), (0, Some(0)));
    assert!(it.next().is_none());
}

#[test]
fn last_element_terminates() {
    let source: Vec<u64> = (0..4).collect();
    let it = source.as_slice().shuffled();
    let e = it.last();
    assert!(e.is_some());
    assert!(source.contains(e.unwrap()));
}

#[test]
fn last_of_empty_is_none() {
    let source: Vec<u64> = Vec::new();
    let it = source.as_slice().shuffled();
    assert!(it.last().is_none());
}

#[test]
fn take_prefix_of_sampler() {
    let source: Vec<u64> = (0..100).collect();
    let mut it = source.as_slice().shuffled();
    let samples = it.take(5);
    assert_eq!(5, samples.len());
    for i in 0..samples.len() {
        for j in i + 1..samples.len() {
            assert!(samples[i] != samples[j]);
        }
    }
    assert_eq!(95, it.count());
}

#[test]
fn take_beyond_remaining() {
    let source: Vec<u64> = (0..3).collect();
    let mut it = source.as_slice().shuffled();
    let samples = it.take(10);
    assert_eq!(3, samples.len());
    assert_eq!(it.size_hint(), (0, Some(0)));
    assert!(it.next().is_none());
    let mut values: Vec<u64> = samples.iter().map(|e| **e).collect();
    values.sort();
    assert_eq!(values, source);
}

#[test]
fn take_nothing() {
    let source: Vec<u64> = (0..3).collect();
    let mut it = source.as_slice().shuffled();
    let samples = it.take(0);
    assert!(samples.is_empty());
    assert_eq!(it.size_hint().0, 3);
}

#[test]
fn produce_at_is_swap_removal() {
    let source: Vec<u64> = vec![10, 20, 30];
    let mut it = source.as_slice().shuffled();
    // The scaffold starts as [10, 20, 30]; removing position 0 swaps the
    // last entry in: [30, 20].
    assert_eq!(*it.produce_at(0), 10);
    assert_eq!(*it.produce_at(1), 20);
    assert_eq!(*it.produce_at(0), 30);
    assert_eq!(it.size_hint(), (0, Some(0)));
}

#[test]
fn fixed_random_replays_modulo_bound() {
    let mut f = FixedRandom::new(vec![7, 8, 2]);
    assert_eq!(f.next_below(5), 2);
    assert_eq!(f.next_below(3), 2);
    assert_eq!(f.next_below(10), 2);
    // The list is exhausted: every further draw is 0.
    assert_eq!(f.next_below(4), 0);
    assert_eq!(f.next_below(4), 0);
}

#[test]
fn thread_random_draws_stay_in_range() {
    let mut t = shuffled::ThreadRandom::new();
    for _ in 0..1000 {
        assert!(t.next_below(10) < 10);
        assert_eq!(t.next_below(1), 0);
    }
}
