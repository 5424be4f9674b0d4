//! The run orchestrator: in which order the work of a run is taken up, and
//! where the run goes on after each piece of work has succeeded or failed.
//!
//! A run visits data sets; within a data set, shard counts; within a shard
//! count, values of `k`. A data set is loaded before any index over it is
//! built, and the indices of a shard count are built before anything is
//! measured with them. The caller does the work of each step and reports how
//! it ended; the orchestrator says what comes next.

use vstd::prelude::*;
use crate::error::Disposition;

verus! {

/// How many data sets, shard counts and values of `k` a run has.
#[derive(Clone, Copy, Debug, PartialEq, Eq, Structural)]
pub struct Extent {
    pub datasets: usize,
    pub shard_counts: usize,
    pub ks: usize,
}

/// One piece of work of a run, or one of its two ends.
#[derive(Clone, Copy, Debug, PartialEq, Eq, Structural)]
pub enum Step {
    /// Resolve the metric of a data set and read its vectors.
    Load { dataset: usize },
    /// Cut the data set into shards and build an index over each.
    Build { dataset: usize, shard_count: usize },
    /// Measure every query at one `k` and store the reports.
    Measure { dataset: usize, shard_count: usize, k: usize },
    /// Everything was taken up.
    Finished,
    /// The run was given up.
    Aborted,
}

/// How a piece of work ended.
#[derive(Clone, Copy, Debug, PartialEq, Eq, Structural)]
pub enum Outcome {
    Done,
    Failed(Disposition),
}

/// Whether a step names work that the run has.
pub open spec fn valid(extent: Extent, step: Step) -> bool {
    match step {
        Step::Load { dataset } => dataset < extent.datasets,
        Step::Build { dataset, shard_count } => dataset < extent.datasets && shard_count
            < extent.shard_counts,
        Step::Measure { dataset, shard_count, k } => dataset < extent.datasets && shard_count
            < extent.shard_counts && k < extent.ks,
        Step::Finished => true,
        Step::Aborted => true,
    }
}

/// Whether a step is one of the two ends of a run.
pub open spec fn terminal(step: Step) -> bool {
    step is Finished || step is Aborted
}

/// The step with which a run begins.
pub open spec fn first(extent: Extent) -> Step {
    if extent.datasets > 0 {
        Step::Load { dataset: 0 }
    } else {
        Step::Finished
    }
}

/// Where the run goes on once it is done with a data set.
pub open spec fn after_dataset(extent: Extent, dataset: usize) -> Step {
    if dataset + 1 < extent.datasets {
        Step::Load { dataset: (dataset + 1) as usize }
    } else {
        Step::Finished
    }
}

/// Where the run goes on once it is done with a shard count.
pub open spec fn after_shard_count(extent: Extent, dataset: usize, shard_count: usize) -> Step {
    if shard_count + 1 < extent.shard_counts {
        Step::Build { dataset, shard_count: (shard_count + 1) as usize }
    } else {
        after_dataset(extent, dataset)
    }
}

/// Where the run goes on once it is done with a value of `k`.
pub open spec fn after_k(extent: Extent, dataset: usize, shard_count: usize, k: usize) -> Step {
    if k + 1 < extent.ks {
        Step::Measure { dataset, shard_count, k: (k + 1) as usize }
    } else {
        after_shard_count(extent, dataset, shard_count)
    }
}

/// The step that follows `step` when its work ended with `outcome`.
///
/// Work that is done leads to the next piece of work in order. A failure
/// that ends the run leads to `Aborted`. A failure that costs the data set
/// leads to the next data set, and one that costs the shard count to the
/// next shard count; while a data set is being loaded there is no shard
/// count yet, so either failure costs the data set. The two ends stay as
/// they are.
pub open spec fn successor(extent: Extent, step: Step, outcome: Outcome) -> Step {
    match step {
        Step::Finished => Step::Finished,
        Step::Aborted => Step::Aborted,
        Step::Load { dataset } => match outcome {
            Outcome::Failed(Disposition::AbortRun) => Step::Aborted,
            Outcome::Failed(_) => after_dataset(extent, dataset),
            Outcome::Done => if extent.shard_counts > 0 {
                Step::Build { dataset, shard_count: 0 }
            } else {
                after_dataset(extent, dataset)
            },
        },
        Step::Build { dataset, shard_count } => match outcome {
            Outcome::Failed(Disposition::AbortRun) => Step::Aborted,
            Outcome::Failed(Disposition::SkipDataset) => after_dataset(extent, dataset),
            Outcome::Failed(Disposition::SkipShardCount) => after_shard_count(
                extent,
                dataset,
                shard_count,
            ),
            Outcome::Done => if extent.ks > 0 {
                Step::Measure { dataset, shard_count, k: 0 }
            } else {
                after_shard_count(extent, dataset, shard_count)
            },
        },
        Step::Measure { dataset, shard_count, k } => match outcome {
            Outcome::Failed(Disposition::AbortRun) => Step::Aborted,
            Outcome::Failed(Disposition::SkipDataset) => after_dataset(extent, dataset),
            Outcome::Failed(Disposition::SkipShardCount) => after_shard_count(
                extent,
                dataset,
                shard_count,
            ),
            Outcome::Done => after_k(extent, dataset, shard_count, k),
        },
    }
}

/// The number of steps that one shard count takes when nothing fails: one to
/// build and one for each `k`.
pub open spec fn steps_of_shard_count(extent: Extent) -> int {
    1 + extent.ks
}

/// The number of steps that one data set takes when nothing fails: one to
/// load and those of each shard count.
pub open spec fn steps_of_dataset(extent: Extent) -> int {
    1 + extent.shard_counts * steps_of_shard_count(extent)
}

/// The place of a step in a run in which nothing fails, counted from zero.
/// `Finished` comes after all work, and `Aborted` after that.
pub open spec fn position(extent: Extent, step: Step) -> int {
    match step {
        Step::Load { dataset } => dataset * steps_of_dataset(extent),
        Step::Build { dataset, shard_count } => dataset * steps_of_dataset(extent) + 1
            + shard_count * steps_of_shard_count(extent),
        Step::Measure { dataset, shard_count, k } => dataset * steps_of_dataset(extent) + 1
            + shard_count * steps_of_shard_count(extent) + 1 + k,
        Step::Finished => extent.datasets * steps_of_dataset(extent),
        Step::Aborted => extent.datasets * steps_of_dataset(extent) + 1,
    }
}

proof fn lemma_scaled(a: int, b: int, w: int)
    requires
        w >= 0,
    ensures
        (a + 1) * w == a * w + w,
        a <= b ==> a * w <= b * w,
{
    assert((a + 1) * w == a * w + w) by (nonlinear_arith);
    if a <= b {
        assert(a * w <= b * w) by (nonlinear_arith)
            requires
                a <= b,
                w >= 0,
        ;
    }
}

/// The step that follows work that is done is the next one in order: a run
/// in which nothing fails takes up every piece of work once, data set by data
/// set, shard count by shard count, `k` by `k`.
pub proof fn lemma_done_leads_to_next(extent: Extent, step: Step)
    requires
        valid(extent, step),
        !terminal(step),
    ensures
        valid(extent, successor(extent, step, Outcome::Done)),
        position(extent, successor(extent, step, Outcome::Done)) == position(extent, step) + 1,
{
    let per_shard = steps_of_shard_count(extent);
    let per_dataset = steps_of_dataset(extent);
    match step {
        Step::Load { dataset } => {
            lemma_scaled(dataset as int, dataset as int, per_dataset);
            lemma_scaled(0, 0, per_shard);
            lemma_scaled(dataset as int, extent.datasets - 1, per_dataset);
            assert(0 * per_shard == 0);
        },
        Step::Build { dataset, shard_count } => {
            lemma_scaled(dataset as int, extent.datasets - 1, per_dataset);
            lemma_scaled(shard_count as int, extent.shard_counts - 1, per_shard);
        },
        Step::Measure { dataset, shard_count, k } => {
            lemma_scaled(dataset as int, extent.datasets - 1, per_dataset);
            lemma_scaled(shard_count as int, extent.shard_counts - 1, per_shard);
        },
        _ => {},
    }
}

/// Whatever the outcome, the run moves forward: no piece of work is taken up
/// twice, and the run ends.
pub proof fn lemma_run_moves_forward(extent: Extent, step: Step, outcome: Outcome)
    requires
        valid(extent, step),
        !terminal(step),
    ensures
        valid(extent, successor(extent, step, outcome)),
        position(extent, successor(extent, step, outcome)) > position(extent, step),
        position(extent, successor(extent, step, outcome)) <= position(extent, Step::Aborted),
{
    let per_shard = steps_of_shard_count(extent);
    let per_dataset = steps_of_dataset(extent);
    lemma_done_leads_to_next(extent, step);
    assert(extent.shard_counts * per_shard >= 0) by (nonlinear_arith)
        requires
            per_shard >= 0,
    ;
    match step {
        Step::Load { dataset } => {
            lemma_scaled(dataset as int, extent.datasets - 1, per_dataset);
            lemma_scaled((extent.datasets - 1) as int, extent.datasets as int, per_dataset);
        },
        Step::Build { dataset, shard_count } => {
            lemma_scaled(dataset as int, extent.datasets - 1, per_dataset);
            lemma_scaled((extent.datasets - 1) as int, extent.datasets as int, per_dataset);
            lemma_scaled(shard_count as int, extent.shard_counts - 1, per_shard);
            lemma_scaled((extent.shard_counts - 1) as int, extent.shard_counts as int, per_shard);
        },
        Step::Measure { dataset, shard_count, k } => {
            lemma_scaled(dataset as int, extent.datasets - 1, per_dataset);
            lemma_scaled((extent.datasets - 1) as int, extent.datasets as int, per_dataset);
            lemma_scaled(shard_count as int, extent.shard_counts - 1, per_shard);
            lemma_scaled((extent.shard_counts - 1) as int, extent.shard_counts as int, per_shard);
        },
        _ => {},
    }
}

/// Whether a step names work that the run has.
pub fn is_valid(extent: Extent, step: Step) -> (r: bool)
    ensures
        r == valid(extent, step),
{
    match step {
        Step::Load { dataset } => dataset < extent.datasets,
        Step::Build { dataset, shard_count } => dataset < extent.datasets && shard_count
            < extent.shard_counts,
        Step::Measure { dataset, shard_count, k } => dataset < extent.datasets && shard_count
            < extent.shard_counts && k < extent.ks,
        Step::Finished => true,
        Step::Aborted => true,
    }
}

/// The step with which a run begins.
pub fn first_step(extent: Extent) -> (step: Step)
    ensures
        step == first(extent),
        valid(extent, step),
{
    if extent.datasets > 0 {
        Step::Load { dataset: 0 }
    } else {
        Step::Finished
    }
}

fn step_after_dataset(extent: Extent, dataset: usize) -> (step: Step)
    requires
        dataset < extent.datasets,
    ensures
        step == after_dataset(extent, dataset),
{
    if dataset + 1 < extent.datasets {
        Step::Load { dataset: dataset + 1 }
    } else {
        Step::Finished
    }
}

fn step_after_shard_count(extent: Extent, dataset: usize, shard_count: usize) -> (step: Step)
    requires
        dataset < extent.datasets,
        shard_count < extent.shard_counts,
    ensures
        step == after_shard_count(extent, dataset, shard_count),
{
    if shard_count + 1 < extent.shard_counts {
        Step::Build { dataset, shard_count: shard_count + 1 }
    } else {
        step_after_dataset(extent, dataset)
    }
}

/// The step that follows `step` when its work ended with `outcome`.
pub fn next_step(extent: Extent, step: Step, outcome: Outcome) -> (next: Step)
    requires
        valid(extent, step),
    ensures
        next == successor(extent, step, outcome),
        valid(extent, next),
{
    match step {
        Step::Finished => Step::Finished,
        Step::Aborted => Step::Aborted,
        Step::Load { dataset } => match outcome {
            Outcome::Failed(Disposition::AbortRun) => Step::Aborted,
            Outcome::Failed(_) => step_after_dataset(extent, dataset),
            Outcome::Done => if extent.shard_counts > 0 {
                Step::Build { dataset, shard_count: 0 }
            } else {
                step_after_dataset(extent, dataset)
            },
        },
        Step::Build { dataset, shard_count } => match outcome {
            Outcome::Failed(Disposition::AbortRun) => Step::Aborted,
            Outcome::Failed(Disposition::SkipDataset) => step_after_dataset(extent, dataset),
            Outcome::Failed(Disposition::SkipShardCount) => step_after_shard_count(
                extent,
                dataset,
                shard_count,
            ),
            Outcome::Done => if extent.ks > 0 {
                Step::Measure { dataset, shard_count, k: 0 }
            } else {
                step_after_shard_count(extent, dataset, shard_count)
            },
        },
        Step::Measure { dataset, shard_count, k } => match outcome {
            Outcome::Failed(Disposition::AbortRun) => Step::Aborted,
            Outcome::Failed(Disposition::SkipDataset) => step_after_dataset(extent, dataset),
            Outcome::Failed(Disposition::SkipShardCount) => step_after_shard_count(
                extent,
                dataset,
                shard_count,
            ),
            Outcome::Done => if k + 1 < extent.ks {
                Step::Measure { dataset, shard_count, k: k + 1 }
            } else {
                step_after_shard_count(extent, dataset, shard_count)
            },
        },
    }
}

} // verus!
