//! The metric registry: which distance function a metric name selects.

use vstd::prelude::*;
use vstd::string::StringExecFns;
use crate::error::HarnessError;

verus! {

/// The distance functions that the harness knows.
#[derive(Clone, Copy, Debug, PartialEq, Eq, Structural)]
pub enum Metrics {
    Cosine,
    Euclidean,
}

/// The lower-case form of a text, as `str::to_lowercase` of the standard
/// library gives it.
pub uninterp spec fn lowercase_of(s: Seq<char>) -> Seq<char>;

/// The metric that a name selects once it is in lower case: `cosine` and its
/// alias `angular` select the cosine distance, `euclidean` the Euclidean one.
pub open spec fn metric_named(lowered: Seq<char>) -> Option<Metrics> {
    if lowered == "cosine"@ || lowered == "angular"@ {
        Some(Metrics::Cosine)
    } else if lowered == "euclidean"@ {
        Some(Metrics::Euclidean)
    } else {
        None
    }
}

/// Calls `str::to_lowercase` of the standard library: the result is the
/// lower-case form of `s`, which depends on `s` alone.
#[verifier::external_body]
fn lowercase(s: &str) -> (r: String)
    ensures
        r@ == lowercase_of(s@),
{
    s.to_lowercase()
}

impl Metrics {
    /// The name under which this metric is registered.
    pub open spec fn spec_name(&self) -> Seq<char> {
        match self {
            Metrics::Cosine => "cosine"@,
            Metrics::Euclidean => "euclidean"@,
        }
    }

    /// The name under which this metric is registered.
    pub fn name(&self) -> (s: &'static str)
        ensures
            s@ == self.spec_name(),
    {
        match self {
            Metrics::Cosine => "cosine",
            Metrics::Euclidean => "euclidean",
        }
    }

    /// Resolves a name that is already in lower case.
    pub fn from_lowercase(lowered: &str) -> (r: Option<Metrics>)
        ensures
            r == metric_named(lowered@),
    {
        let name: String = String::from_str(lowered);
        if name == String::from_str("cosine") || name == String::from_str("angular") {
            Some(Metrics::Cosine)
        } else if name == String::from_str("euclidean") {
            Some(Metrics::Euclidean)
        } else {
            None
        }
    }

    /// Resolves a metric name without regard to case. A name that selects no
    /// metric is reported as `UnknownMetric`, with the name as it was given.
    pub fn from_str(s: &str) -> (r: Result<Metrics, HarnessError>)
        ensures
            match metric_named(lowercase_of(s@)) {
                Some(m) => r == Ok::<Metrics, HarnessError>(m),
                None => r is Err && r->Err_0 is UnknownMetric && r->Err_0->UnknownMetric_0@ == s@,
            },
    {
        let lowered: String = lowercase(s);
        match Metrics::from_lowercase(lowered.as_str()) {
            Some(m) => Ok(m),
            None => Err(HarnessError::UnknownMetric(String::from_str(s))),
        }
    }
}

/// The registered name of a metric selects that metric.
pub proof fn lemma_registered_name_resolves(m: Metrics)
    ensures
        metric_named(m.spec_name()) == Some(m),
{
    reveal_strlit("cosine");
    reveal_strlit("angular");
    reveal_strlit("euclidean");
    if m == Metrics::Euclidean {
        assert("euclidean"@.len() == 9);
        assert("cosine"@.len() == 6);
        assert("angular"@.len() == 7);
    }
}

} // verus!
