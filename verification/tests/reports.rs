use ann_harness::error::HarnessError;
use ann_harness::recall::Recall;
use ann_harness::report::Report;
use ann_harness::sweep::{Elapsed, KnnAlgorithm, Measurements};
use ann_harness::text::decimal_string;

fn measurements(n: u32) -> Measurements {
    Measurements {
        elapsed: (0..n).map(|i| Elapsed { secs: 0, nanos: i }).collect(),
        recalls: Some((0..n).map(|_| Recall { common: 10, k: 10 }).collect()),
    }
}

fn report(data: &str, metric: &str, k: usize, algorithm: &str, shards: usize) -> Report {
    Report::assemble(data, metric, 1000, 25, shards, k, algorithm, measurements(3)).unwrap()
}

#[test]
fn artifact_name_of_a_report() {
    let r = report("glove-25", "cosine", 10, KnnAlgorithm::GreedySieve.name(), 1);
    assert_eq!(r.artifact_name(), "glove-25_cosine_10_GreedySieve_1.json");
    let r = report("glove-100", "euclidean", 1000, "RepeatedRnn", 16);
    assert_eq!(r.artifact_name(), "glove-100_euclidean_1000_RepeatedRnn_16.json");
}

#[test]
fn the_same_configuration_has_the_same_name() {
    let first = report("glove-25", "cosine", 100, "Sieve", 4);
    let again = Report::assemble(
        "glove-25",
        "cosine",
        1000,
        25,
        4,
        100,
        "Sieve",
        Measurements { elapsed: vec![Elapsed { secs: 9, nanos: 9 }], recalls: None },
    )
    .unwrap();
    assert_eq!(first.artifact_name(), again.artifact_name());
}

#[test]
fn different_configurations_have_different_names() {
    let base = report("glove-25", "cosine", 10, "Sieve", 2).artifact_name();
    assert_ne!(base, report("glove-100", "cosine", 10, "Sieve", 2).artifact_name());
    assert_ne!(base, report("glove-25", "angular", 10, "Sieve", 2).artifact_name());
    assert_ne!(base, report("glove-25", "cosine", 100, "Sieve", 2).artifact_name());
    assert_ne!(base, report("glove-25", "cosine", 10, "SieveSepCenter", 2).artifact_name());
    assert_ne!(base, report("glove-25", "cosine", 10, "Sieve", 20).artifact_name());
    assert_ne!(
        report("a", "m", 1, "x", 12).artifact_name(),
        report("a", "m", 11, "x", 2).artifact_name()
    );
}

#[test]
fn a_report_holds_what_it_was_given() {
    let r = Report::assemble("glove-25", "cosine", 100, 4, 3, 10, "GreedySieve", measurements(7))
        .unwrap();
    assert_eq!(r.data_name, "glove-25");
    assert_eq!(r.metric_name, "cosine");
    assert_eq!(r.cardinality, 100);
    assert_eq!(r.dimensionality, 4);
    assert_eq!(r.shard_sizes, vec![33, 33, 34]);
    assert_eq!(r.num_queries, 7);
    assert_eq!(r.k, 10);
    assert_eq!(r.algorithm, "GreedySieve");
    assert_eq!(r.elapsed, measurements(7).elapsed);
    assert_eq!(r.recalls, measurements(7).recalls);
    assert_eq!(r.elapsed.len(), r.num_queries);
}

#[test]
fn a_report_without_recalls() {
    let m = Measurements { elapsed: vec![Elapsed { secs: 1, nanos: 2 }], recalls: None };
    let r = Report::assemble("glove-25", "cosine", 8, 2, 8, 1, "Linear", m).unwrap();
    assert_eq!(r.shard_sizes, vec![1; 8]);
    assert_eq!(r.num_queries, 1);
    assert_eq!(r.recalls, None);
}

#[test]
fn a_report_of_a_degenerate_sharding_is_refused() {
    assert_eq!(
        Report::assemble("glove-25", "cosine", 8, 2, 9, 1, "Linear", measurements(1)),
        Err(HarnessError::DegenerateShard { cardinality: 8, shards: 9 })
    );
    assert_eq!(
        Report::assemble("glove-25", "cosine", 8, 2, 0, 1, "Linear", measurements(1)),
        Err(HarnessError::DegenerateShard { cardinality: 8, shards: 0 })
    );
}

#[test]
fn decimal_numerals() {
    assert_eq!(decimal_string(0), "0");
    assert_eq!(decimal_string(7), "7");
    assert_eq!(decimal_string(10), "10");
    assert_eq!(decimal_string(1234567890), "1234567890");
    assert_eq!(decimal_string(usize::MAX), usize::MAX.to_string());
    for n in 0..2000usize {
        assert_eq!(decimal_string(n), n.to_string());
    }
}
