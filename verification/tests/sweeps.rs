use ann_harness::distance::{Distance, Hit};
use ann_harness::recall::Recall;
use ann_harness::sweep::{
    configurations, gather, is_selected, powers, radii, radius_of, rnn_sweep_algorithms,
    score_query, Elapsed, KnnAlgorithm, Measurements, QueryOutcome, RnnAlgorithm,
};

fn hits(distances: &[f32]) -> Vec<Hit> {
    distances
        .iter()
        .enumerate()
        .map(|(id, d)| Hit { id, distance: Distance::from_bits(d.to_bits()) })
        .collect()
}

#[test]
fn powers_of_ten_for_k() {
    assert_eq!(powers(10, 4), Some(vec![1, 10, 100, 1000]));
}

#[test]
fn powers_of_two_for_shard_counts() {
    assert_eq!(powers(2, 6), Some(vec![1, 2, 4, 8, 16, 32]));
}

#[test]
fn powers_at_the_edges() {
    assert_eq!(powers(7, 0), Some(vec![]));
    assert_eq!(powers(7, 1), Some(vec![1]));
    assert_eq!(powers(0, 3), Some(vec![1, 0, 0]));
    assert_eq!(powers(1, 3), Some(vec![1, 1, 1]));
    assert_eq!(powers(usize::MAX, 2), Some(vec![1, usize::MAX]));
    assert_eq!(powers(usize::MAX, 3), None);
    let bits = usize::BITS as usize;
    assert_eq!(powers(2, bits).map(|v| v[bits - 1]), Some(1usize << (bits - 1)));
    assert_eq!(powers(2, bits + 1), None);
}

#[test]
fn algorithm_names() {
    assert_eq!(KnnAlgorithm::Linear.name(), "Linear");
    assert_eq!(KnnAlgorithm::RepeatedRnn.name(), "RepeatedRnn");
    assert_eq!(KnnAlgorithm::GreedySieve.name(), "GreedySieve");
    assert_eq!(KnnAlgorithm::Sieve.name(), "Sieve");
    assert_eq!(KnnAlgorithm::SieveSepCenter.name(), "SieveSepCenter");
    assert_eq!(RnnAlgorithm::Linear.name(), "Linear");
    assert_eq!(RnnAlgorithm::Clustered.name(), "Clustered");
    assert!(KnnAlgorithm::Linear.is_baseline());
    assert!(!KnnAlgorithm::Sieve.is_baseline());
    assert!(RnnAlgorithm::Linear.is_baseline());
    assert!(!RnnAlgorithm::Clustered.is_baseline());
}

#[test]
fn range_sweep_leaves_the_scan_out() {
    assert_eq!(
        rnn_sweep_algorithms(&vec![RnnAlgorithm::Linear, RnnAlgorithm::Clustered]),
        vec![RnnAlgorithm::Clustered]
    );
    assert_eq!(
        rnn_sweep_algorithms(&vec![
            RnnAlgorithm::Clustered,
            RnnAlgorithm::Linear,
            RnnAlgorithm::Clustered,
            RnnAlgorithm::Linear,
        ]),
        vec![RnnAlgorithm::Clustered, RnnAlgorithm::Clustered]
    );
    assert_eq!(rnn_sweep_algorithms(&vec![RnnAlgorithm::Linear]), vec![]);
    assert_eq!(rnn_sweep_algorithms(&vec![]), vec![]);
}

#[test]
fn every_k_with_every_algorithm() {
    let ks = vec![1, 10, 100];
    let algorithms = vec![KnnAlgorithm::GreedySieve, KnnAlgorithm::RepeatedRnn];
    assert_eq!(
        configurations(&ks, &algorithms),
        vec![
            (1, KnnAlgorithm::GreedySieve),
            (1, KnnAlgorithm::RepeatedRnn),
            (10, KnnAlgorithm::GreedySieve),
            (10, KnnAlgorithm::RepeatedRnn),
            (100, KnnAlgorithm::GreedySieve),
            (100, KnnAlgorithm::RepeatedRnn),
        ]
    );
    assert_eq!(configurations(&ks, &Vec::<KnnAlgorithm>::new()), vec![]);
    assert_eq!(configurations(&vec![], &algorithms), vec![]);
}

#[test]
fn a_query_without_a_scan_keeps_only_its_time() {
    let t = Elapsed { secs: 0, nanos: 1500 };
    let outcome = score_query(t, &hits(&[0.1, 0.2]), None, 2);
    assert_eq!(outcome, QueryOutcome { elapsed: t, recall: None });
}

#[test]
fn a_query_with_a_scan_is_scored() {
    let t = Elapsed { secs: 2, nanos: 7 };
    let truth = hits(&[0.1, 0.3, 0.9]);
    let outcome = score_query(t, &hits(&[0.1, 0.3, 0.5]), Some(&truth), 3);
    assert_eq!(outcome, QueryOutcome { elapsed: t, recall: Some(Recall { common: 2, k: 3 }) });
}

#[test]
fn one_time_for_every_query_in_order() {
    let outcomes: Vec<QueryOutcome> = (0..5u32)
        .map(|i| QueryOutcome {
            elapsed: Elapsed { secs: 0, nanos: 100 * i },
            recall: Some(Recall { common: i as usize, k: 4 }),
        })
        .collect();
    let m = gather(&outcomes);
    assert_eq!(m.elapsed.len(), outcomes.len());
    assert_eq!(m.num_queries(), 5);
    for (i, o) in outcomes.iter().enumerate() {
        assert_eq!(m.elapsed[i], o.elapsed);
        assert_eq!(Some(m.recalls.as_ref().unwrap()[i]), o.recall);
    }
}

#[test]
fn recalls_for_every_query_or_for_none() {
    let t = Elapsed { secs: 1, nanos: 0 };
    let scored = QueryOutcome { elapsed: t, recall: Some(Recall { common: 1, k: 1 }) };
    let timed = QueryOutcome { elapsed: t, recall: None };
    assert_eq!(
        gather(&vec![timed, timed]),
        Measurements { elapsed: vec![t, t], recalls: None }
    );
    assert_eq!(
        gather(&vec![scored, timed, scored]),
        Measurements { elapsed: vec![t, t, t], recalls: None }
    );
    assert_eq!(
        gather(&vec![scored, scored]),
        Measurements {
            elapsed: vec![t, t],
            recalls: Some(vec![Recall { common: 1, k: 1 }, Recall { common: 1, k: 1 }]),
        }
    );
    assert_eq!(gather(&vec![]), Measurements { elapsed: vec![], recalls: Some(vec![]) });
}

#[test]
fn radius_is_the_greatest_distance() {
    let r = radius_of(&hits(&[0.25, 1.5, 0.75])).unwrap();
    assert_eq!(f32::from_bits(r.bits), 1.5);
    let r = radius_of(&hits(&[3.0])).unwrap();
    assert_eq!(f32::from_bits(r.bits), 3.0);
    assert_eq!(radius_of(&hits(&[])), None);
}

#[test]
fn radius_passes_over_what_is_not_a_number() {
    let r = radius_of(&hits(&[f32::NAN, 0.5, f32::NAN])).unwrap();
    assert_eq!(f32::from_bits(r.bits), 0.5);
    let r = radius_of(&hits(&[f32::NAN])).unwrap();
    assert!(f32::from_bits(r.bits).is_nan());
}

#[test]
fn radius_of_equal_distances_is_the_first() {
    let r = radius_of(&hits(&[-0.0, 0.0])).unwrap();
    assert_eq!(r.bits, (-0.0f32).to_bits());
    let r = radius_of(&hits(&[0.0, -0.0])).unwrap();
    assert_eq!(r.bits, 0.0f32.to_bits());
}

#[test]
fn one_radius_for_every_query() {
    let results = vec![hits(&[0.1, 0.4]), hits(&[]), hits(&[2.0, 1.0, 0.5])];
    let r = radii(&results);
    assert_eq!(r.len(), 3);
    assert_eq!(f32::from_bits(r[0].unwrap().bits), 0.4);
    assert_eq!(r[1], None);
    assert_eq!(f32::from_bits(r[2].unwrap().bits), 2.0);
}

#[test]
fn the_selection_of_data_sets() {
    assert!(is_selected("glove-25"));
    assert!(is_selected("glove-100"));
    assert!(!is_selected("glove-50"));
    assert!(!is_selected("Glove-25"));
    assert!(!is_selected("sift"));
    assert!(!is_selected(""));
}
