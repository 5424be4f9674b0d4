use ann_harness::distance::{Distance, Hit};
use ann_harness::recall::{count_shared, evaluate, sorted_ranks, Recall};

fn hits(distances: &[f32]) -> Vec<Hit> {
    distances
        .iter()
        .enumerate()
        .map(|(id, d)| Hit { id, distance: Distance::from_bits(d.to_bits()) })
        .collect()
}

fn fraction(r: Recall) -> f64 {
    r.common as f64 / r.k as f64
}

#[test]
fn two_of_three_distances_match() {
    let found = vec![
        Hit { id: 1, distance: Distance::from_bits(0.1f32.to_bits()) },
        Hit { id: 2, distance: Distance::from_bits(0.3f32.to_bits()) },
        Hit { id: 3, distance: Distance::from_bits(0.5f32.to_bits()) },
    ];
    let truth = vec![
        Hit { id: 9, distance: Distance::from_bits(0.1f32.to_bits()) },
        Hit { id: 2, distance: Distance::from_bits(0.3f32.to_bits()) },
        Hit { id: 4, distance: Distance::from_bits(0.9f32.to_bits()) },
    ];
    let r = evaluate(&found, &truth, 3);
    assert_eq!(r, Recall { common: 2, k: 3 });
    assert!((fraction(r) - 2.0 / 3.0).abs() < 1e-12);
}

#[test]
fn order_of_hits_does_not_matter() {
    let r = evaluate(&hits(&[0.5, 0.1, 0.3]), &hits(&[0.3, 0.9, 0.1]), 3);
    assert_eq!(r, Recall { common: 2, k: 3 });
}

#[test]
fn identical_distances_give_recall_one() {
    let a = hits(&[4.0, 1.5, 2.25, 1.5]);
    let b = hits(&[1.5, 1.5, 4.0, 2.25]);
    let r = evaluate(&a, &b, 4);
    assert_eq!(r, Recall { common: 4, k: 4 });
    assert!(r.is_perfect());
    assert_eq!(fraction(r), 1.0);
}

#[test]
fn disjoint_distances_give_recall_zero() {
    let r = evaluate(&hits(&[1.0, 2.0, 3.0]), &hits(&[1.5, 2.5, 3.5]), 3);
    assert_eq!(r, Recall { common: 0, k: 3 });
    assert!(!r.is_perfect());
    assert_eq!(fraction(r), 0.0);
}

#[test]
fn recall_is_symmetric() {
    let a = hits(&[0.25, 0.5, 0.5, 0.75, 2.0]);
    let b = hits(&[0.5, 0.75, 0.75, 3.0, 0.125]);
    assert_eq!(evaluate(&a, &b, 5), evaluate(&b, &a, 5));
    assert_eq!(evaluate(&a, &b, 5).common, 2);
}

#[test]
fn repeated_distances_count_as_often_as_both_hold_them() {
    assert_eq!(evaluate(&hits(&[1.0, 1.0, 2.0]), &hits(&[1.0, 3.0, 4.0]), 3).common, 1);
    assert_eq!(evaluate(&hits(&[1.0, 1.0, 2.0]), &hits(&[1.0, 1.0, 1.0]), 3).common, 2);
}

#[test]
fn items_are_not_compared() {
    let a = vec![Hit { id: 7, distance: Distance::from_bits(1.0f32.to_bits()) }];
    let b = vec![Hit { id: 8, distance: Distance::from_bits(1.0f32.to_bits()) }];
    assert_eq!(evaluate(&a, &b, 1), Recall { common: 1, k: 1 });
    let c = vec![Hit { id: 7, distance: Distance::from_bits(2.0f32.to_bits()) }];
    assert_eq!(evaluate(&a, &c, 1), Recall { common: 0, k: 1 });
}

#[test]
fn empty_sets_share_nothing() {
    assert_eq!(evaluate(&hits(&[]), &hits(&[1.0]), 1).common, 0);
    assert_eq!(evaluate(&hits(&[1.0]), &hits(&[]), 1).common, 0);
    assert_eq!(evaluate(&hits(&[]), &hits(&[]), 1).common, 0);
}

#[test]
fn not_a_number_sorts_below_every_number() {
    let with_nan = hits(&[1.0, f32::NAN, 0.0, f32::NEG_INFINITY]);
    let ranks = sorted_ranks(&with_nan);
    assert_eq!(ranks[0], 0);
    assert!(ranks[1] > 0);
    assert!(ranks.windows(2).all(|w| w[0] <= w[1]));
    let r = evaluate(&with_nan, &hits(&[0.0, 1.0, 2.0, 3.0]), 4);
    assert_eq!(r.common, 2);
    let r = evaluate(&with_nan, &hits(&[f32::NAN, 5.0]), 4);
    assert_eq!(r.common, 1);
}

#[test]
fn sorted_ranks_are_ascending_and_complete() {
    let ranks = sorted_ranks(&hits(&[3.0, 1.0, 2.0, 1.0]));
    let one = Distance::from_bits(1.0f32.to_bits()).rank();
    let two = Distance::from_bits(2.0f32.to_bits()).rank();
    let three = Distance::from_bits(3.0f32.to_bits()).rank();
    assert_eq!(ranks, vec![one, one, two, three]);
}

#[test]
fn count_shared_walks_two_ascending_sequences() {
    assert_eq!(count_shared(&vec![1, 2, 2, 5, 9], &vec![2, 2, 2, 3, 9, 10]), 3);
    assert_eq!(count_shared(&vec![], &vec![1, 2]), 0);
    assert_eq!(count_shared(&vec![4, 4], &vec![4]), 1);
}

#[test]
fn ranks_order_distances_as_numbers_are_ordered() {
    let samples = [
        f32::NEG_INFINITY,
        f32::MIN,
        -2.5,
        -1.0,
        -f32::MIN_POSITIVE,
        -1e-45,
        -0.0,
        0.0,
        1e-45,
        f32::MIN_POSITIVE,
        0.1,
        0.3,
        1.0,
        1.0000001,
        2.5,
        f32::MAX,
        f32::INFINITY,
    ];
    for a in samples {
        for b in samples {
            let ra = Distance::from_bits(a.to_bits());
            let rb = Distance::from_bits(b.to_bits());
            assert_eq!(a < b, ra.below(&rb));
            assert_eq!(a == b, ra.same_as(&rb));
            assert_eq!(a < b, ra.rank() < rb.rank());
        }
        let nan = Distance::from_bits(f32::NAN.to_bits());
        assert!(nan.below(&Distance::from_bits(a.to_bits())));
        assert!(!Distance::from_bits(a.to_bits()).is_nan());
    }
}

#[test]
fn every_pattern_that_is_not_a_number_has_rank_zero() {
    for bits in [0x7fc0_0000u32, 0x7f80_0001, 0xffc0_0000, 0xff80_0001, 0x7fff_ffff, 0xffff_ffff] {
        assert!(f32::from_bits(bits).is_nan());
        let d = Distance::from_bits(bits);
        assert!(d.is_nan());
        assert_eq!(d.rank(), 0);
    }
    assert_eq!(Distance::from_bits(0).rank(), 0x8000_0000);
    assert_eq!(Distance::from_bits(0x8000_0000).rank(), 0x8000_0000);
    assert_eq!(Distance::from_bits(0x7f80_0000).rank(), 0xff80_0000);
    assert_eq!(Distance::from_bits(0xff80_0000).rank(), 0x0080_0000);
    assert_eq!(Distance::from_bits(1.0f32.to_bits()).rank(), 0xbf80_0000);
}
