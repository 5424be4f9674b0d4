//! The recall evaluator: how much of an exhaustive search's result a search
//! under test has found, judged by distances alone.
//!
//! Two hits count as the same when their distances share a rank. The number
//! of common hits is the size of the intersection of the two multisets of
//! ranks: a rank that occurs `m` times on one side and `n` times on the other
//! is common `min(m, n)` times.

use vstd::prelude::*;
use vstd::multiset::*;
use vstd::seq_lib::*;
use crate::distance::Hit;
use crate::distance::ranks_of;
use crate::distance::rank_of;
use crate::distance::lemma_rank_bounds;

verus! {

/// Whether a sequence of ranks never descends.
pub open spec fn ascending(s: Seq<u32>) -> bool {
    forall|i: int, j: int| 0 <= i <= j < s.len() ==> s[i] <= s[j]
}

/// The ranks that two sequences share, each as often as both hold it.
pub open spec fn shared(a: Seq<u32>, b: Seq<u32>) -> Multiset<u32> {
    a.to_multiset().intersection_with(b.to_multiset())
}

/// The number of hits that two sets of hits have in common, by distance.
pub open spec fn common_count(a: Seq<Hit>, b: Seq<Hit>) -> nat {
    shared(ranks_of(a), ranks_of(b)).len()
}

/// A recall: `common` hits found out of `k` asked for, the fraction
/// `common / k`.
#[derive(Clone, Copy, Debug, PartialEq, Eq, Structural)]
pub struct Recall {
    pub common: usize,
    pub k: usize,
}

impl Recall {
    /// Whether this recall is the fraction one: everything asked for was found.
    pub open spec fn is_one(&self) -> bool {
        self.k > 0 && self.common == self.k
    }

    /// Whether this recall is the fraction zero: nothing was found.
    pub open spec fn is_zero(&self) -> bool {
        self.k > 0 && self.common == 0
    }

    /// Whether this recall lies between zero and one, both included.
    pub open spec fn in_unit_interval(&self) -> bool {
        self.k > 0 && self.common <= self.k
    }

    /// Whether everything asked for was found.
    pub fn is_perfect(&self) -> (r: bool)
        ensures
            r == self.is_one(),
    {
        self.k > 0 && self.common == self.k
    }
}

proof fn lemma_shared_skips_unmatched(a: Seq<u32>, b: Seq<u32>)
    requires
        a.len() > 0,
        forall|j: int| 0 <= j < b.len() ==> b[j] != a[0],
    ensures
        shared(a.remove(0), b) == shared(a, b),
{
    broadcast use {group_multiset_axioms, group_to_multiset_ensures};

    let v = a[0];
    assert(!b.contains(v));
    assert(b.to_multiset().count(v) == 0);
    assert(a.remove(0).to_multiset() == a.to_multiset().remove(v));
    assert forall|x: u32| shared(a.remove(0), b).count(x) == shared(a, b).count(x) by {
        lemma_intersection_count(a.remove(0).to_multiset(), b.to_multiset(), x);
        lemma_intersection_count(a.to_multiset(), b.to_multiset(), x);
    }
    assert(shared(a.remove(0), b) =~= shared(a, b));
}

proof fn lemma_shared_is_symmetric(a: Seq<u32>, b: Seq<u32>)
    ensures
        shared(a, b) == shared(b, a),
{
    broadcast use group_multiset_axioms;

    assert forall|x: u32| shared(a, b).count(x) == shared(b, a).count(x) by {
        lemma_intersection_count(a.to_multiset(), b.to_multiset(), x);
        lemma_intersection_count(b.to_multiset(), a.to_multiset(), x);
    }
    assert(shared(a, b) =~= shared(b, a));
}

proof fn lemma_shared_takes_match(a: Seq<u32>, b: Seq<u32>)
    requires
        a.len() > 0,
        b.len() > 0,
        a[0] == b[0],
    ensures
        shared(a, b) == shared(a.remove(0), b.remove(0)).insert(a[0]),
        shared(a, b).len() == shared(a.remove(0), b.remove(0)).len() + 1,
{
    broadcast use {group_multiset_axioms, group_to_multiset_ensures};

    let v = a[0];
    assert(a.contains(v));
    assert(b.contains(v));
    assert(a.to_multiset().count(v) > 0);
    assert(b.to_multiset().count(v) > 0);
    assert(a.remove(0).to_multiset() == a.to_multiset().remove(v));
    assert(b.remove(0).to_multiset() == b.to_multiset().remove(v));
    let rest = shared(a.remove(0), b.remove(0));
    assert forall|x: u32| shared(a, b).count(x) == rest.insert(v).count(x) by {
        lemma_intersection_count(a.remove(0).to_multiset(), b.remove(0).to_multiset(), x);
        lemma_intersection_count(a.to_multiset(), b.to_multiset(), x);
    }
    assert(shared(a, b) =~= rest.insert(v));
    lemma_insert_len(rest, v);
}

proof fn lemma_shared_with_nothing(a: Seq<u32>, b: Seq<u32>)
    requires
        a.len() == 0 || b.len() == 0,
    ensures
        shared(a, b).len() == 0,
{
    broadcast use {group_multiset_axioms, group_to_multiset_ensures};

    assert forall|x: u32| shared(a, b).count(x) == 0 by {
        lemma_intersection_count(a.to_multiset(), b.to_multiset(), x);
        if a.len() == 0 {
            assert(!a.contains(x));
        } else {
            assert(!b.contains(x));
        }
    }
    assert(shared(a, b) =~= Multiset::<u32>::empty());
}

proof fn lemma_shared_is_small(a: Seq<u32>, b: Seq<u32>)
    ensures
        shared(a, b).len() <= a.len(),
        shared(a, b).len() <= b.len(),
{
    broadcast use {group_multiset_axioms, group_to_multiset_ensures};

    let s = shared(a, b);
    let ma = a.to_multiset();
    let mb = b.to_multiset();
    assert forall|x: u32| s.add(ma.sub(s)).count(x) == ma.count(x) by {
        lemma_intersection_count(ma, mb, x);
    }
    assert(s.add(ma.sub(s)) =~= ma);
    assert(s.add(ma.sub(s)).len() == s.len() + ma.sub(s).len());
    assert(ma.len() == a.len());
    assert forall|x: u32| s.add(mb.sub(s)).count(x) == mb.count(x) by {
        lemma_intersection_count(ma, mb, x);
    }
    assert(s.add(mb.sub(s)) =~= mb);
    assert(s.add(mb.sub(s)).len() == s.len() + mb.sub(s).len());
    assert(mb.len() == b.len());
}

/// Counts what two ascending sequences of ranks share, by walking both at
/// once: the smaller head is passed over, and equal heads are counted and
/// passed over together.
pub fn count_shared(a: &Vec<u32>, b: &Vec<u32>) -> (count: usize)
    requires
        ascending(a@),
        ascending(b@),
    ensures
        count == shared(a@, b@).len(),
{
    let mut i: usize = 0;
    let mut j: usize = 0;
    let mut count: usize = 0;
    proof {
        assert(a@.subrange(0, a@.len() as int) =~= a@);
        assert(b@.subrange(0, b@.len() as int) =~= b@);
    }
    while i < a.len() && j < b.len()
        invariant
            i <= a.len(),
            j <= b.len(),
            count <= i,
            ascending(a@),
            ascending(b@),
            count + shared(
                a@.subrange(i as int, a@.len() as int),
                b@.subrange(j as int, b@.len() as int),
            ).len() == shared(a@, b@).len(),
        decreases a.len() - i + b.len() - j,
    {
        let ghost rest_a = a@.subrange(i as int, a@.len() as int);
        let ghost rest_b = b@.subrange(j as int, b@.len() as int);
        let x: u32 = a[i];
        let y: u32 = b[j];
        if x < y {
            proof {
                assert(rest_a.remove(0) =~= a@.subrange(i + 1, a@.len() as int));
                assert forall|t: int| 0 <= t < rest_b.len() implies rest_b[t] != rest_a[0] by {
                    assert(rest_b[t] == b@[j + t]);
                }
                lemma_shared_skips_unmatched(rest_a, rest_b);
            }
            i = i + 1;
        } else if y < x {
            proof {
                assert(rest_b.remove(0) =~= b@.subrange(j + 1, b@.len() as int));
                assert forall|t: int| 0 <= t < rest_a.len() implies rest_a[t] != rest_b[0] by {
                    assert(rest_a[t] == a@[i + t]);
                }
                lemma_shared_skips_unmatched(rest_b, rest_a);
                lemma_shared_is_symmetric(rest_b, rest_a);
                lemma_shared_is_symmetric(rest_b.remove(0), rest_a);
            }
            j = j + 1;
        } else {
            proof {
                assert(rest_a.remove(0) =~= a@.subrange(i + 1, a@.len() as int));
                assert(rest_b.remove(0) =~= b@.subrange(j + 1, b@.len() as int));
                lemma_shared_takes_match(rest_a, rest_b);
            }
            count = count + 1;
            i = i + 1;
            j = j + 1;
        }
    }
    proof {
        lemma_shared_with_nothing(
            a@.subrange(i as int, a@.len() as int),
            b@.subrange(j as int, b@.len() as int),
        );
    }
    count
}

/// Sorts ranks in place with the standard library's `sort_unstable` on
/// slices: afterwards the vector never descends and holds the ranks it held
/// before, each as often as before.
#[verifier::external_body]
fn sort_ranks(v: &mut Vec<u32>)
    ensures
        ascending(final(v)@),
        final(v)@.to_multiset() == old(v)@.to_multiset(),
{
    v.sort_unstable();
}

/// The ranks of the distances of `hits`, in ascending order.
pub fn sorted_ranks(hits: &Vec<Hit>) -> (r: Vec<u32>)
    ensures
        ascending(r@),
        r@.to_multiset() == ranks_of(hits@).to_multiset(),
{
    let mut ranks: Vec<u32> = Vec::new();
    let mut i: usize = 0;
    while i < hits.len()
        invariant
            i <= hits.len(),
            ranks@ == ranks_of(hits@).take(i as int),
        decreases hits.len() - i,
    {
        proof {
            lemma_rank_bounds(hits@[i as int].distance.bits);
        }
        ranks.push(hits[i].distance.rank());
        i = i + 1;
        assert(ranks@ =~= ranks_of(hits@).take(i as int));
    }
    assert(ranks@ =~= ranks_of(hits@));
    sort_ranks(&mut ranks);
    ranks
}

/// The recall of `hits` against `linear_hits` when `k` hits were asked for.
pub open spec fn recall_of(hits: Seq<Hit>, linear_hits: Seq<Hit>, k: usize) -> Recall {
    Recall { common: common_count(hits, linear_hits) as usize, k }
}

/// Scores the hits of a search under test against those of an exhaustive
/// scan for the same query. Hits are matched by distance, never by item: the
/// result holds the number of distances that both sets share, counted with
/// multiplicity, beside the `k` that was asked for.
pub fn evaluate(hits: &Vec<Hit>, linear_hits: &Vec<Hit>, k: usize) -> (r: Recall)
    ensures
        r == recall_of(hits@, linear_hits@, k),
        r.common == common_count(hits@, linear_hits@),
        r.common <= hits@.len(),
        r.common <= linear_hits@.len(),
{
    let found: Vec<u32> = sorted_ranks(hits);
    let truth: Vec<u32> = sorted_ranks(linear_hits);
    let common: usize = count_shared(&found, &truth);
    proof {
        lemma_shared_is_small(ranks_of(hits@), ranks_of(linear_hits@));
    }
    Recall { common, k }
}

/// The number of common hits never exceeds the size of either set, so a
/// recall over sets of at most `k` hits lies between zero and one.
pub proof fn lemma_recall_in_unit_interval(a: Seq<Hit>, b: Seq<Hit>, k: usize)
    requires
        k > 0,
        a.len() <= k || b.len() <= k,
    ensures
        common_count(a, b) <= a.len(),
        common_count(a, b) <= b.len(),
        recall_of(a, b, k).in_unit_interval(),
{
    lemma_shared_is_small(ranks_of(a), ranks_of(b));
}

/// Two sets of `k` hits whose distances form the same multiset have recall
/// one.
pub proof fn lemma_recall_of_identical(a: Seq<Hit>, b: Seq<Hit>, k: usize)
    requires
        k > 0,
        a.len() == k,
        ranks_of(a).to_multiset() == ranks_of(b).to_multiset(),
    ensures
        common_count(a, b) == k,
        recall_of(a, b, k).is_one(),
{
    broadcast use {group_multiset_axioms, group_to_multiset_ensures};

    let m = ranks_of(a).to_multiset();
    assert forall|x: u32| m.intersection_with(m).count(x) == m.count(x) by {
        lemma_intersection_count(m, m, x);
    }
    assert(m.intersection_with(m) =~= m);
    assert(m.len() == ranks_of(a).len());
}

/// Two sets of hits that share no distance have recall zero.
pub proof fn lemma_recall_of_disjoint(a: Seq<Hit>, b: Seq<Hit>, k: usize)
    requires
        k > 0,
        forall|i: int, j: int|
            0 <= i < a.len() && 0 <= j < b.len() ==> rank_of(a[i].distance.bits) != rank_of(
                b[j].distance.bits,
            ),
    ensures
        common_count(a, b) == 0,
        recall_of(a, b, k).is_zero(),
{
    broadcast use {group_multiset_axioms, group_to_multiset_ensures};

    let ra = ranks_of(a);
    let rb = ranks_of(b);
    assert forall|x: u32| shared(ra, rb).count(x) == 0 by {
        lemma_intersection_count(ra.to_multiset(), rb.to_multiset(), x);
        if ra.contains(x) && rb.contains(x) {
            let i = choose|i: int| 0 <= i < ra.len() && ra[i] == x;
            let j = choose|j: int| 0 <= j < rb.len() && rb[j] == x;
            lemma_rank_bounds(a[i].distance.bits);
            lemma_rank_bounds(b[j].distance.bits);
            assert(rank_of(a[i].distance.bits) == rank_of(b[j].distance.bits));
        }
    }
    assert(shared(ra, rb) =~= Multiset::<u32>::empty());
}

/// Recall does not depend on which set is called the search's and which the
/// scan's.
pub proof fn lemma_recall_symmetric(a: Seq<Hit>, b: Seq<Hit>, k: usize)
    ensures
        common_count(a, b) == common_count(b, a),
        recall_of(a, b, k) == recall_of(b, a, k),
{
    lemma_shared_is_symmetric(ranks_of(a), ranks_of(b));
}

} // verus!
