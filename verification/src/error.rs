//! The conditions under which the harness gives up on a piece of work, and how
//! far each of them reaches.

use vstd::prelude::*;
use vstd::string::StringExecFns;
use crate::text::decimal;
use crate::text::push_decimal;

verus! {

/// What went wrong while a benchmark was being prepared, run or recorded.
#[derive(Clone, Debug, PartialEq, Eq)]
pub enum HarnessError {
    /// The metric name, as it was given, names no known metric.
    UnknownMetric(String),
    /// The requested number of shards cannot be cut from the data without
    /// leaving a shard empty.
    DegenerateShard { cardinality: usize, shards: usize },
    /// The data set could not be read; the text says why.
    DatasetLoadFailure(String),
    /// A report could not be turned into its stored form.
    SerializationFailure(String),
    /// A report could not be written.
    PersistenceFailure(String),
}

/// How much work is abandoned when an error occurs.
#[derive(Clone, Copy, Debug, PartialEq, Eq, Structural)]
pub enum Disposition {
    /// Leave the current data set and go on with the next one.
    SkipDataset,
    /// Leave the current shard count and go on with the next one.
    SkipShardCount,
    /// Stop the whole run.
    AbortRun,
}

impl HarnessError {
    /// The reach of this error, as a specification.
    pub open spec fn spec_disposition(&self) -> Disposition {
        match self {
            HarnessError::UnknownMetric(_) => Disposition::SkipDataset,
            HarnessError::DatasetLoadFailure(_) => Disposition::SkipDataset,
            HarnessError::DegenerateShard { .. } => Disposition::SkipShardCount,
            HarnessError::SerializationFailure(_) => Disposition::AbortRun,
            HarnessError::PersistenceFailure(_) => Disposition::AbortRun,
        }
    }

    /// The text that describes this error, as a specification.
    pub open spec fn spec_message(&self) -> Seq<char> {
        match self {
            HarnessError::UnknownMetric(name) => "Unknown metric: "@ + name@,
            HarnessError::DegenerateShard { cardinality, shards } => "Cannot cut "@ + decimal(
                *cardinality as nat,
            ) + " items into "@ + decimal(*shards as nat) + " shards"@,
            HarnessError::DatasetLoadFailure(why) => why@,
            HarnessError::SerializationFailure(why) => why@,
            HarnessError::PersistenceFailure(why) => why@,
        }
    }

    /// The text that describes this error to the person who runs the harness.
    pub fn message(&self) -> (s: String)
        ensures
            s@ == self.spec_message(),
    {
        match self {
            HarnessError::UnknownMetric(name) => {
                let mut s: String = String::from_str("Unknown metric: ");
                s.append(name.as_str());
                s
            },
            HarnessError::DegenerateShard { cardinality, shards } => {
                let mut s: String = String::from_str("Cannot cut ");
                push_decimal(&mut s, *cardinality);
                s.append(" items into ");
                push_decimal(&mut s, *shards);
                s.append(" shards");
                s
            },
            HarnessError::DatasetLoadFailure(why) => why.clone(),
            HarnessError::SerializationFailure(why) => why.clone(),
            HarnessError::PersistenceFailure(why) => why.clone(),
        }
    }

    /// Says how far this error reaches: an unknown metric or an unreadable
    /// data set costs that data set, a degenerate sharding costs that shard
    /// count, and a report that cannot be stored ends the run.
    pub fn disposition(&self) -> (d: Disposition)
        ensures
            d == self.spec_disposition(),
    {
        match self {
            HarnessError::UnknownMetric(_) => Disposition::SkipDataset,
            HarnessError::DatasetLoadFailure(_) => Disposition::SkipDataset,
            HarnessError::DegenerateShard { .. } => Disposition::SkipShardCount,
            HarnessError::SerializationFailure(_) => Disposition::AbortRun,
            HarnessError::PersistenceFailure(_) => Disposition::AbortRun,
        }
    }
}

} // verus!
