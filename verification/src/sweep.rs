//! The measurement driver's rules: which algorithms a sweep runs, which
//! configurations it visits and in what order, what is kept of each query,
//! and how the radii of a range search follow from the hits of the
//! nearest-neighbour search before it.

use vstd::prelude::*;
use crate::distance::Distance;
use crate::distance::Hit;
use crate::distance::rank_of;
use crate::recall::Recall;
use crate::recall::recall_of;
use crate::recall::evaluate;
use crate::text::free_of;

verus! {

/// The ways in which the engine searches for the nearest neighbours of a
/// query.
#[derive(Clone, Copy, Debug, PartialEq, Eq, Structural)]
pub enum KnnAlgorithm {
    Linear,
    RepeatedRnn,
    GreedySieve,
    Sieve,
    SieveSepCenter,
}

/// The ways in which the engine searches for everything within a radius of a
/// query.
#[derive(Clone, Copy, Debug, PartialEq, Eq, Structural)]
pub enum RnnAlgorithm {
    Linear,
    Clustered,
}

impl KnnAlgorithm {
    /// The name of this algorithm.
    pub open spec fn spec_name(&self) -> Seq<char> {
        match self {
            KnnAlgorithm::Linear => "Linear"@,
            KnnAlgorithm::RepeatedRnn => "RepeatedRnn"@,
            KnnAlgorithm::GreedySieve => "GreedySieve"@,
            KnnAlgorithm::Sieve => "Sieve"@,
            KnnAlgorithm::SieveSepCenter => "SieveSepCenter"@,
        }
    }

    /// The name of this algorithm, as reports carry it.
    pub fn name(&self) -> (s: &'static str)
        ensures
            s@ == self.spec_name(),
    {
        match self {
            KnnAlgorithm::Linear => "Linear",
            KnnAlgorithm::RepeatedRnn => "RepeatedRnn",
            KnnAlgorithm::GreedySieve => "GreedySieve",
            KnnAlgorithm::Sieve => "Sieve",
            KnnAlgorithm::SieveSepCenter => "SieveSepCenter",
        }
    }

    /// Whether this is the exhaustive scan that other algorithms are scored
    /// against.
    pub fn is_baseline(&self) -> (r: bool)
        ensures
            r == (*self == KnnAlgorithm::Linear),
    {
        match self {
            KnnAlgorithm::Linear => true,
            _ => false,
        }
    }
}

impl RnnAlgorithm {
    /// The name of this algorithm.
    pub open spec fn spec_name(&self) -> Seq<char> {
        match self {
            RnnAlgorithm::Linear => "Linear"@,
            RnnAlgorithm::Clustered => "Clustered"@,
        }
    }

    /// The name of this algorithm, as reports carry it.
    pub fn name(&self) -> (s: &'static str)
        ensures
            s@ == self.spec_name(),
    {
        match self {
            RnnAlgorithm::Linear => "Linear",
            RnnAlgorithm::Clustered => "Clustered",
        }
    }

    /// Whether this is the exhaustive scan.
    pub fn is_baseline(&self) -> (r: bool)
        ensures
            r == (*self == RnnAlgorithm::Linear),
    {
        match self {
            RnnAlgorithm::Linear => true,
            RnnAlgorithm::Clustered => false,
        }
    }
}

/// No algorithm name holds an underscore.
pub proof fn lemma_algorithm_names_free_of_underscore(knn: KnnAlgorithm, rnn: RnnAlgorithm)
    ensures
        free_of(knn.spec_name(), '_'),
        free_of(rnn.spec_name(), '_'),
{
    reveal_strlit("Linear");
    reveal_strlit("RepeatedRnn");
    reveal_strlit("GreedySieve");
    reveal_strlit("Sieve");
    reveal_strlit("SieveSepCenter");
    reveal_strlit("Clustered");
}

/// The algorithms of a range sweep that are left once the exhaustive scan is
/// taken out, in their order.
pub open spec fn without_baseline(algorithms: Seq<RnnAlgorithm>) -> Seq<RnnAlgorithm> {
    algorithms.filter(|a: RnnAlgorithm| a != RnnAlgorithm::Linear)
}

/// Chooses the algorithms that a range sweep runs: the exhaustive scan
/// measures nothing that the sweep is after, so it is left out; the others
/// keep their order.
pub fn rnn_sweep_algorithms(algorithms: &Vec<RnnAlgorithm>) -> (r: Vec<RnnAlgorithm>)
    ensures
        r@ == without_baseline(algorithms@),
{
    let mut kept: Vec<RnnAlgorithm> = Vec::new();
    let mut i: usize = 0;
    proof {
        assert(algorithms@.take(0) =~= Seq::<RnnAlgorithm>::empty());
        reveal(Seq::filter);
    }
    while i < algorithms.len()
        invariant
            i <= algorithms.len(),
            kept@ == without_baseline(algorithms@.take(i as int)),
        decreases algorithms.len() - i,
    {
        let a: RnnAlgorithm = algorithms[i];
        proof {
            let before = algorithms@.take(i as int);
            assert(algorithms@.take(i + 1) =~= before.push(a));
            assert(before.push(a).drop_last() =~= before);
            reveal(Seq::filter);
        }
        if !a.is_baseline() {
            kept.push(a);
        }
        i = i + 1;
    }
    assert(algorithms@.take(i as int) =~= algorithms@);
    kept
}

/// `base` raised to the power `e`.
pub open spec fn power(base: nat, e: nat) -> nat
    decreases e,
{
    if e == 0 {
        1
    } else {
        base * power(base, (e - 1) as nat)
    }
}

/// The first `count` powers of `base`, from `base^0` on: the values that a
/// sweep takes for `k`, or for the number of shards. There is no result when
/// one of them does not fit the machine's word.
pub fn powers(base: usize, count: usize) -> (r: Option<Vec<usize>>)
    ensures
        r is Some <==> (forall|e: nat| e < count ==> power(base as nat, e) <= usize::MAX),
        r is Some ==> r->0@.len() == count,
        r is Some ==> forall|e: int|
            0 <= e < count ==> (#[trigger] r->0@[e]) == power(base as nat, e as nat),
{
    let mut values: Vec<usize> = Vec::new();
    if count == 0 {
        return Some(values);
    }
    let mut p: usize = 1;
    let mut i: usize = 0;
    loop
        invariant
            i < count,
            p == power(base as nat, i as nat),
            values@.len() == i,
            forall|e: int| 0 <= e < i ==> (#[trigger] values@[e]) == power(base as nat, e as nat),
        decreases count - i,
    {
        values.push(p);
        i = i + 1;
        if i == count {
            assert forall|e: nat| e < count implies power(base as nat, e) <= usize::MAX by {
                assert(values@[e as int] == power(base as nat, e));
            }
            return Some(values);
        }
        match p.checked_mul(base) {
            Some(next) => {
                assert(power(base as nat, i as nat) == base * power(base as nat, (i - 1) as nat));
                assert(base * p == p * base) by (nonlinear_arith);
                p = next;
            },
            None => {
                assert(power(base as nat, i as nat) == base * power(base as nat, (i - 1) as nat));
                assert(base * p == p * base) by (nonlinear_arith);
                assert(power(base as nat, i as nat) > usize::MAX);
                return None;
            },
        }
    }
}

/// What a sweep visits: every `k` with every algorithm, the `k`s in their
/// order and, for each `k`, the algorithms in theirs.
pub open spec fn configurations_spec<A>(ks: Seq<usize>, algorithms: Seq<A>) -> Seq<(usize, A)> {
    Seq::new(
        ks.len() * algorithms.len(),
        |i: int| (ks[i / algorithms.len() as int], algorithms[i % algorithms.len() as int]),
    )
}

/// Lists the configurations of a sweep in the order in which they are run.
pub fn configurations<A: Copy>(ks: &Vec<usize>, algorithms: &Vec<A>) -> (r: Vec<(usize, A)>)
    ensures
        r@ == configurations_spec(ks@, algorithms@),
{
    let mut out: Vec<(usize, A)> = Vec::new();
    let mut i: usize = 0;
    let ghost width: int = algorithms@.len() as int;
    let ghost want = configurations_spec(ks@, algorithms@);
    proof {
        assert(0 * width == 0);
    }
    while i < ks.len()
        invariant
            i <= ks.len(),
            width == algorithms@.len(),
            want == configurations_spec(ks@, algorithms@),
            out@.len() == i * width,
            forall|t: int| 0 <= t < out@.len() ==> out@[t] == want[t],
        decreases ks.len() - i,
    {
        let mut j: usize = 0;
        proof {
            assert((i + 1) * width == i * width + width) by (nonlinear_arith);
            assert((i + 1) * width <= ks@.len() * width) by (nonlinear_arith)
                requires
                    i + 1 <= ks@.len(),
                    width >= 0,
            ;
        }
        while j < algorithms.len()
            invariant
                i < ks.len(),
                j <= algorithms.len(),
                width == algorithms@.len(),
                want == configurations_spec(ks@, algorithms@),
                (i + 1) * width == i * width + width,
                (i + 1) * width <= ks@.len() * width,
                out@.len() == i * width + j,
                forall|t: int| 0 <= t < out@.len() ==> out@[t] == want[t],
            decreases algorithms.len() - j,
        {
            proof {
                let t: int = i * width + j;
                vstd::arithmetic::div_mod::lemma_fundamental_div_mod_converse(
                    t,
                    width,
                    i as int,
                    j as int,
                );
                assert(want[t] == (ks@[i as int], algorithms@[j as int]));
            }
            out.push((ks[i], algorithms[j]));
            j = j + 1;
        }
        i = i + 1;
    }
    assert(out@.len() == ks@.len() * width);
    assert(out@ =~= want);
    out
}

/// The time that one search took, in whole seconds and the nanoseconds
/// beyond them.
#[derive(Clone, Copy, Debug, PartialEq, Eq, Structural)]
pub struct Elapsed {
    pub secs: u64,
    pub nanos: u32,
}

impl Elapsed {
    /// The whole time in nanoseconds.
    pub open spec fn total_nanos(&self) -> nat {
        (self.secs * 1_000_000_000 + self.nanos) as nat
    }
}

/// What is kept of one query: the time its search took and, where the sweep
/// asks for it, the recall of what the search found.
#[derive(Clone, Copy, Debug, PartialEq, Eq, Structural)]
pub struct QueryOutcome {
    pub elapsed: Elapsed,
    pub recall: Option<Recall>,
}

/// The outcome of one query. The hits themselves are not kept: with the hits
/// of an exhaustive scan at hand they are scored against it, and without
/// them only the time remains.
pub fn score_query(
    elapsed: Elapsed,
    hits: &Vec<Hit>,
    linear_hits: Option<&Vec<Hit>>,
    k: usize,
) -> (r: QueryOutcome)
    ensures
        r.elapsed == elapsed,
        match linear_hits {
            Some(truth) => r.recall == Some(recall_of(hits@, truth@, k)),
            None => r.recall is None,
        },
{
    match linear_hits {
        Some(truth) => QueryOutcome { elapsed, recall: Some(evaluate(hits, truth, k)) },
        None => QueryOutcome { elapsed, recall: None },
    }
}

/// The measurements of one configuration: a time for every query, in the
/// order of the queries, and a recall for every query or for none.
#[derive(Clone, Debug, PartialEq, Eq)]
pub struct Measurements {
    pub elapsed: Vec<Elapsed>,
    pub recalls: Option<Vec<Recall>>,
}

impl Measurements {
    /// Whether the recalls, where there are any, match the times one to one.
    pub open spec fn wf(&self) -> bool {
        self.recalls is Some ==> self.recalls->0@.len() == self.elapsed@.len()
    }

    /// The number of queries that were measured.
    pub fn num_queries(&self) -> (n: usize)
        ensures
            n == self.elapsed@.len(),
    {
        self.elapsed.len()
    }
}

/// Whether every outcome carries a recall.
pub open spec fn all_scored(outcomes: Seq<QueryOutcome>) -> bool {
    forall|i: int| 0 <= i < outcomes.len() ==> (#[trigger] outcomes[i]).recall is Some
}

/// Gathers the outcomes of all queries of one configuration. The times come
/// out one for each query and in the order of the queries, and no time is
/// negative. The recalls come out the same way where every query was scored;
/// where some query was not, there are none.
pub fn gather(outcomes: &Vec<QueryOutcome>) -> (m: Measurements)
    ensures
        m.wf(),
        m.elapsed@.len() == outcomes@.len(),
        forall|i: int|
            0 <= i < outcomes@.len() ==> (#[trigger] m.elapsed@[i]) == outcomes@[i].elapsed
                && m.elapsed@[i].total_nanos() >= 0,
        m.recalls is Some <==> all_scored(outcomes@),
        m.recalls is Some ==> forall|i: int|
            0 <= i < outcomes@.len() ==> Some(#[trigger] m.recalls->0@[i]) == outcomes@[i].recall,
{
    let mut elapsed: Vec<Elapsed> = Vec::new();
    let mut recalls: Vec<Recall> = Vec::new();
    let mut scored: bool = true;
    let mut i: usize = 0;
    while i < outcomes.len()
        invariant
            i <= outcomes.len(),
            elapsed@.len() == i,
            forall|t: int| 0 <= t < i ==> (#[trigger] elapsed@[t]) == outcomes@[t].elapsed,
            scored <==> all_scored(outcomes@.take(i as int)),
            scored ==> recalls@.len() == i,
            scored ==> forall|t: int|
                0 <= t < i ==> Some(#[trigger] recalls@[t]) == outcomes@[t].recall,
        decreases outcomes.len() - i,
    {
        let outcome: QueryOutcome = outcomes[i];
        elapsed.push(outcome.elapsed);
        proof {
            let before = outcomes@.take(i as int);
            let after = outcomes@.take(i + 1);
            assert(forall|t: int| 0 <= t < i ==> before[t] == after[t]);
            assert(after[i as int] == outcome);
            if all_scored(after) {
                assert forall|t: int| 0 <= t < before.len() implies (
                #[trigger] before[t]).recall is Some by {
                    assert(after[t].recall is Some);
                }
            }
        }
        match outcome.recall {
            Some(recall) => {
                if scored {
                    recalls.push(recall);
                }
            },
            None => {
                scored = false;
            },
        }
        i = i + 1;
    }
    assert(outcomes@.take(i as int) =~= outcomes@);
    if scored {
        Measurements { elapsed, recalls: Some(recalls) }
    } else {
        Measurements { elapsed, recalls: None }
    }
}

/// Whether position `at` holds the first hit of greatest distance.
pub open spec fn is_farthest(hits: Seq<Hit>, at: int) -> bool {
    &&& 0 <= at < hits.len()
    &&& forall|j: int|
        0 <= j < hits.len() ==> rank_of((#[trigger] hits[j]).distance.bits) <= rank_of(
            hits[at].distance.bits,
        )
    &&& forall|j: int|
        0 <= j < at ==> rank_of((#[trigger] hits[j]).distance.bits) < rank_of(
            hits[at].distance.bits,
        )
}

/// The radius that a range search takes from the hits of a nearest-neighbour
/// search for the same query: the greatest distance among them, and of
/// several such the first. Without hits there is no radius.
pub fn radius_of(hits: &Vec<Hit>) -> (r: Option<Distance>)
    ensures
        r is None <==> hits@.len() == 0,
        r is Some ==> exists|at: int| is_farthest(hits@, at) && hits@[at].distance == r->0,
{
    if hits.len() == 0 {
        return None;
    }
    let mut best: usize = 0;
    let mut i: usize = 1;
    while i < hits.len()
        invariant
            1 <= i <= hits.len(),
            best < i,
            is_farthest(hits@.take(i as int), best as int),
        decreases hits.len() - i,
    {
        proof {
            let before = hits@.take(i as int);
            let after = hits@.take(i + 1);
            assert(forall|t: int| 0 <= t < i ==> before[t] == after[t]);
        }
        if hits[best].distance.below(&hits[i].distance) {
            best = i;
        }
        i = i + 1;
    }
    assert(hits@.take(i as int) =~= hits@);
    Some(hits[best].distance)
}

/// The radii of a range sweep, one for each query, from the hits that the
/// nearest-neighbour sweep at the same `k` found for that query.
pub fn radii(results: &Vec<Vec<Hit>>) -> (r: Vec<Option<Distance>>)
    ensures
        r@.len() == results@.len(),
        forall|q: int|
            0 <= q < results@.len() ==> {
                &&& ((#[trigger] r@[q]) is None <==> results@[q]@.len() == 0)
                &&& (r@[q] is Some ==> exists|at: int|
                    is_farthest(results@[q]@, at) && results@[q]@[at].distance == r@[q]->0)
            },
{
    let mut out: Vec<Option<Distance>> = Vec::new();
    let mut q: usize = 0;
    while q < results.len()
        invariant
            q <= results.len(),
            out@.len() == q,
            forall|t: int|
                0 <= t < q ==> {
                    &&& ((#[trigger] out@[t]) is None <==> results@[t]@.len() == 0)
                    &&& (out@[t] is Some ==> exists|at: int|
                        is_farthest(results@[t]@, at) && results@[t]@[at].distance == out@[t]->0)
                },
        decreases results.len() - q,
    {
        let radius: Option<Distance> = radius_of(&results[q]);
        out.push(radius);
        q = q + 1;
    }
    out
}

/// The data sets that the harness runs are a fixed selection.
pub open spec fn selected(name: Seq<char>) -> bool {
    name == "glove-25"@ || name == "glove-100"@
}

/// Whether the harness runs the data set of this name.
pub fn is_selected(name: &str) -> (r: bool)
    ensures
        r == selected(name@),
{
    let name: String = String::from_str(name);
    name == String::from_str("glove-25") || name == String::from_str("glove-100")
}

} // verus!
