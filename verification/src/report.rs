//! The report of one configuration, and the name under which it is stored.

use vstd::prelude::*;
use vstd::string::StringExecFns;
use crate::error::HarnessError;
use crate::recall::Recall;
use crate::shard::shard_sizes;
use crate::shard::shard_sizes_spec;
use crate::shard::shardable;
use crate::shard::sizes_of;
use crate::shard::total;
use crate::shard::lemma_shard_sizes_cover;
use crate::sweep::Elapsed;
use crate::sweep::Measurements;
use crate::text::decimal;
use crate::text::free_of;
use crate::text::push_decimal;
use crate::text::lemma_decimal_free_of_marks;
use crate::text::lemma_decimal_injective;
use crate::text::lemma_split_at_last_mark;

verus! {

/// Two texts with an underscore between them.
pub open spec fn joined(head: Seq<char>, tail: Seq<char>) -> Seq<char> {
    head.push('_') + tail
}

/// The name of a report's artifact without its extension: the data set, the
/// metric, `k`, the algorithm and the number of shards, with underscores
/// between them.
pub open spec fn artifact_stem(
    data: Seq<char>,
    metric: Seq<char>,
    k: nat,
    algorithm: Seq<char>,
    num_shards: nat,
) -> Seq<char> {
    joined(joined(joined(joined(data, metric), decimal(k)), algorithm), decimal(num_shards))
}

/// The name of a report's artifact.
pub open spec fn artifact_name_of(
    data: Seq<char>,
    metric: Seq<char>,
    k: nat,
    algorithm: Seq<char>,
    num_shards: nat,
) -> Seq<char> {
    artifact_stem(data, metric, k, algorithm, num_shards) + ".json"@
}

/// Two configurations have the same artifact name exactly when they are the
/// same configuration, provided that neither metric name and neither
/// algorithm name holds an underscore.
pub proof fn lemma_artifact_names_distinct(
    data_a: Seq<char>,
    metric_a: Seq<char>,
    k_a: nat,
    algorithm_a: Seq<char>,
    shards_a: nat,
    data_b: Seq<char>,
    metric_b: Seq<char>,
    k_b: nat,
    algorithm_b: Seq<char>,
    shards_b: nat,
)
    requires
        free_of(metric_a, '_'),
        free_of(algorithm_a, '_'),
        free_of(metric_b, '_'),
        free_of(algorithm_b, '_'),
    ensures
        artifact_name_of(data_a, metric_a, k_a, algorithm_a, shards_a) == artifact_name_of(
            data_b,
            metric_b,
            k_b,
            algorithm_b,
            shards_b,
        ) <==> (data_a == data_b && metric_a == metric_b && k_a == k_b && algorithm_a
            == algorithm_b && shards_a == shards_b),
{
    let name_a = artifact_name_of(data_a, metric_a, k_a, algorithm_a, shards_a);
    let name_b = artifact_name_of(data_b, metric_b, k_b, algorithm_b, shards_b);
    if name_a == name_b {
        let stem_a = artifact_stem(data_a, metric_a, k_a, algorithm_a, shards_a);
        let stem_b = artifact_stem(data_b, metric_b, k_b, algorithm_b, shards_b);
        let ext = ".json"@;
        assert(stem_a == stem_b) by {
            assert(name_a.len() == stem_a.len() + ext.len());
            assert(name_b.len() == stem_b.len() + ext.len());
            assert forall|i: int| 0 <= i < stem_a.len() implies stem_a[i] == stem_b[i] by {
                assert(name_a[i] == stem_a[i]);
                assert(name_b[i] == stem_b[i]);
            }
            assert(stem_a =~= stem_b);
        }
        lemma_decimal_free_of_marks(k_a);
        lemma_decimal_free_of_marks(k_b);
        lemma_decimal_free_of_marks(shards_a);
        lemma_decimal_free_of_marks(shards_b);
        let upto_algorithm_a = joined(joined(joined(data_a, metric_a), decimal(k_a)), algorithm_a);
        let upto_algorithm_b = joined(joined(joined(data_b, metric_b), decimal(k_b)), algorithm_b);
        lemma_split_at_last_mark(
            upto_algorithm_a,
            decimal(shards_a),
            upto_algorithm_b,
            decimal(shards_b),
            '_',
        );
        lemma_decimal_injective(shards_a, shards_b);
        let upto_k_a = joined(joined(data_a, metric_a), decimal(k_a));
        let upto_k_b = joined(joined(data_b, metric_b), decimal(k_b));
        lemma_split_at_last_mark(upto_k_a, algorithm_a, upto_k_b, algorithm_b, '_');
        let upto_metric_a = joined(data_a, metric_a);
        let upto_metric_b = joined(data_b, metric_b);
        lemma_split_at_last_mark(upto_metric_a, decimal(k_a), upto_metric_b, decimal(k_b), '_');
        lemma_decimal_injective(k_a, k_b);
        lemma_split_at_last_mark(data_a, metric_a, data_b, metric_b, '_');
    }
}

/// The record of one configuration: what was searched, how, and what every
/// query cost and found.
#[derive(Clone, Debug, PartialEq, Eq)]
pub struct Report {
    pub data_name: String,
    pub metric_name: String,
    pub cardinality: usize,
    pub dimensionality: usize,
    pub shard_sizes: Vec<usize>,
    pub num_queries: usize,
    pub k: usize,
    pub algorithm: String,
    pub elapsed: Vec<Elapsed>,
    pub recalls: Option<Vec<Recall>>,
}

impl Report {
    /// Whether the parts of this report agree: the shards are not empty and
    /// their sizes add up to the cardinality, there is a time for every
    /// query, and there is a recall for every query or for none.
    pub open spec fn wf(&self) -> bool {
        &&& self.shard_sizes@.len() >= 1
        &&& forall|i: int| 0 <= i < self.shard_sizes@.len() ==> self.shard_sizes@[i] >= 1
        &&& total(sizes_of(self.shard_sizes@)) == self.cardinality
        &&& self.elapsed@.len() == self.num_queries
        &&& (self.recalls is Some ==> self.recalls->0@.len() == self.num_queries)
    }

    /// The name of this report's artifact, as a specification.
    pub open spec fn spec_artifact_name(&self) -> Seq<char> {
        artifact_name_of(
            self.data_name@,
            self.metric_name@,
            self.k as nat,
            self.algorithm@,
            self.shard_sizes@.len(),
        )
    }

    /// Puts a report together from the configuration and its measurements.
    /// The shard sizes are those of cutting `cardinality` items into
    /// `num_shards` shards, so a sharding that cannot be made is refused here
    /// as it is there; the number of queries is the number of times measured.
    pub fn assemble(
        data_name: &str,
        metric_name: &str,
        cardinality: usize,
        dimensionality: usize,
        num_shards: usize,
        k: usize,
        algorithm: &str,
        measurements: Measurements,
    ) -> (r: Result<Report, HarnessError>)
        requires
            measurements.wf(),
        ensures
            shardable(cardinality as nat, num_shards as nat) <==> r is Ok,
            r is Err ==> r->Err_0 == (HarnessError::DegenerateShard {
                cardinality,
                shards: num_shards,
            }),
            r is Ok ==> {
                let report = r->Ok_0;
                &&& report.wf()
                &&& report.data_name@ == data_name@
                &&& report.metric_name@ == metric_name@
                &&& report.cardinality == cardinality
                &&& report.dimensionality == dimensionality
                &&& sizes_of(report.shard_sizes@) == shard_sizes_spec(
                    cardinality as nat,
                    num_shards as nat,
                )
                &&& report.num_queries == measurements.elapsed@.len()
                &&& report.k == k
                &&& report.algorithm@ == algorithm@
                &&& report.elapsed == measurements.elapsed
                &&& report.recalls == measurements.recalls
            },
    {
        let sizes: Vec<usize> = match shard_sizes(cardinality, num_shards) {
            Ok(sizes) => sizes,
            Err(e) => {
                return Err(e);
            },
        };
        proof {
            lemma_shard_sizes_cover(cardinality as nat, num_shards as nat);
            let planned = shard_sizes_spec(cardinality as nat, num_shards as nat);
            assert forall|i: int| 0 <= i < sizes@.len() implies sizes@[i] >= 1 by {
                assert(sizes_of(sizes@)[i] == planned[i]);
            }
        }
        let num_queries: usize = measurements.elapsed.len();
        Ok(
            Report {
                data_name: String::from_str(data_name),
                metric_name: String::from_str(metric_name),
                cardinality,
                dimensionality,
                shard_sizes: sizes,
                num_queries,
                k,
                algorithm: String::from_str(algorithm),
                elapsed: measurements.elapsed,
                recalls: measurements.recalls,
            },
        )
    }

    /// The name under which this report is stored. It depends on the data
    /// set, the metric, `k`, the algorithm and the number of shards, and on
    /// nothing else, so a configuration that is run again replaces its
    /// earlier report.
    pub fn artifact_name(&self) -> (name: String)
        ensures
            name@ == self.spec_artifact_name(),
    {
        proof {
            reveal_strlit("_");
        }
        let mut name: String = self.data_name.clone();
        name.append("_");
        name.append(self.metric_name.as_str());
        name.append("_");
        push_decimal(&mut name, self.k);
        name.append("_");
        name.append(self.algorithm.as_str());
        name.append("_");
        push_decimal(&mut name, self.shard_sizes.len());
        name.append(".json");
        proof {
            let mark = "_"@;
            assert(mark =~= seq!['_']);
            let d = self.data_name@;
            let m = self.metric_name@;
            let k = decimal(self.k as nat);
            let a = self.algorithm@;
            let s = decimal(self.shard_sizes@.len());
            assert(d + mark + m =~= joined(d, m));
            assert(d + mark + m + mark + k =~= joined(joined(d, m), k));
            assert(d + mark + m + mark + k + mark + a =~= joined(joined(joined(d, m), k), a));
            assert(d + mark + m + mark + k + mark + a + mark + s =~= joined(
                joined(joined(joined(d, m), k), a),
                s,
            ));
        }
        name
    }
}

} // verus!
