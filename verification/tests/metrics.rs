use ann_harness::error::{Disposition, HarnessError};
use ann_harness::metric::Metrics;

#[test]
fn cosine_and_its_alias() {
    assert_eq!(Metrics::from_str("cosine"), Ok(Metrics::Cosine));
    assert_eq!(Metrics::from_str("angular"), Ok(Metrics::Cosine));
}

#[test]
fn euclidean() {
    assert_eq!(Metrics::from_str("euclidean"), Ok(Metrics::Euclidean));
}

#[test]
fn names_are_resolved_without_regard_to_case() {
    assert_eq!(Metrics::from_str("Cosine"), Ok(Metrics::Cosine));
    assert_eq!(Metrics::from_str("ANGULAR"), Ok(Metrics::Cosine));
    assert_eq!(Metrics::from_str("EuClIdEaN"), Ok(Metrics::Euclidean));
}

#[test]
fn unknown_metric_keeps_the_name_as_given() {
    assert_eq!(
        Metrics::from_str("Manhattan"),
        Err(HarnessError::UnknownMetric("Manhattan".to_string()))
    );
    assert_eq!(Metrics::from_str(""), Err(HarnessError::UnknownMetric(String::new())));
    assert_eq!(
        Metrics::from_str("cosine "),
        Err(HarnessError::UnknownMetric("cosine ".to_string()))
    );
}

#[test]
fn unknown_metric_costs_the_data_set() {
    let e = Metrics::from_str("hamming").unwrap_err();
    assert_eq!(e.disposition(), Disposition::SkipDataset);
    assert_eq!(e.message(), "Unknown metric: hamming");
}

#[test]
fn lower_case_names_are_matched_exactly() {
    assert_eq!(Metrics::from_lowercase("cosine"), Some(Metrics::Cosine));
    assert_eq!(Metrics::from_lowercase("angular"), Some(Metrics::Cosine));
    assert_eq!(Metrics::from_lowercase("euclidean"), Some(Metrics::Euclidean));
    assert_eq!(Metrics::from_lowercase("Cosine"), None);
    assert_eq!(Metrics::from_lowercase("euclid"), None);
}

#[test]
fn registered_names_resolve_to_their_metric() {
    for m in [Metrics::Cosine, Metrics::Euclidean] {
        assert_eq!(Metrics::from_str(m.name()), Ok(m));
    }
    assert_eq!(Metrics::Cosine.name(), "cosine");
    assert_eq!(Metrics::Euclidean.name(), "euclidean");
}

#[test]
fn every_error_has_its_reach_and_its_text() {
    let load = HarnessError::DatasetLoadFailure("no such file".to_string());
    assert_eq!(load.disposition(), Disposition::SkipDataset);
    assert_eq!(load.message(), "no such file");
    let ser = HarnessError::SerializationFailure("key must be a string".to_string());
    assert_eq!(ser.disposition(), Disposition::AbortRun);
    assert_eq!(ser.message(), "key must be a string");
    let write = HarnessError::PersistenceFailure("disk full".to_string());
    assert_eq!(write.disposition(), Disposition::AbortRun);
    assert_eq!(write.message(), "disk full");
    let shard = HarnessError::DegenerateShard { cardinality: 1000, shards: 2048 };
    assert_eq!(shard.disposition(), Disposition::SkipShardCount);
    assert_eq!(shard.message(), "Cannot cut 1000 items into 2048 shards");
}
