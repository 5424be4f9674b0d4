//! The sharding planner: cutting a collection of a given cardinality into
//! contiguous shards, and the partition threshold that goes with each shard.

use vstd::prelude::*;
use vstd::arithmetic::power2::pow2;
use vstd::arithmetic::power2::lemma_pow2_unfold;
use vstd::string::StringExecFns;
use crate::error::HarnessError;
use crate::text::decimal;
use crate::text::push_decimal;

verus! {

/// The least exponent `t` with `n <= 2^t`: the base-two logarithm of `n`,
/// rounded up. It is `0` for `n <= 1`.
pub open spec fn ceil_log2(n: nat) -> nat
    decreases n,
{
    if n <= 1 {
        0
    } else {
        1 + ceil_log2((n + 1) / 2)
    }
}

/// `ceil_log2(n)` is an exponent whose power of two reaches `n`, and no
/// smaller exponent does.
pub proof fn lemma_ceil_log2_is_least(n: nat)
    ensures
        n <= pow2(ceil_log2(n)),
        ceil_log2(n) > 0 ==> pow2((ceil_log2(n) - 1) as nat) < n,
    decreases n,
{
    if n <= 1 {
        vstd::arithmetic::power2::lemma2_to64();
    } else {
        let h: nat = (n + 1) / 2;
        lemma_ceil_log2_is_least(h);
        let c: nat = ceil_log2(h);
        lemma_pow2_unfold(c + 1);
        if c == 0 {
            vstd::arithmetic::power2::lemma2_to64();
        } else {
            lemma_pow2_unfold(c);
        }
    }
}

/// The size of shard `i` when `cardinality` items are cut into `n` shards:
/// every shard but the last holds `cardinality / n` items, and the last one
/// holds what is left.
pub open spec fn shard_size_at(cardinality: nat, n: nat, i: int) -> int {
    if i < n - 1 {
        (cardinality / n) as int
    } else {
        cardinality - (n - 1) * (cardinality / n)
    }
}

/// The sizes of all `n` shards, in order.
pub open spec fn shard_sizes_spec(cardinality: nat, n: nat) -> Seq<int> {
    Seq::new(n, |i: int| shard_size_at(cardinality, n, i))
}

/// The sum of a sequence of sizes.
pub open spec fn total(sizes: Seq<int>) -> int
    decreases sizes.len(),
{
    if sizes.len() == 0 {
        0
    } else {
        total(sizes.drop_last()) + sizes.last()
    }
}

/// The sizes held by a vector, as mathematical integers.
pub open spec fn sizes_of(v: Seq<usize>) -> Seq<int> {
    v.map_values(|x: usize| x as int)
}

/// Whether a sharding of `cardinality` items into `n` shards leaves no shard
/// empty.
pub open spec fn shardable(cardinality: nat, n: nat) -> bool {
    1 <= n <= cardinality
}

proof fn lemma_chunks_fit(cardinality: nat, n: nat, i: nat)
    requires
        n >= 1,
        i <= n,
    ensures
        i * (cardinality / n) <= cardinality,
{
    let q: nat = cardinality / n;
    assert(n * q <= cardinality) by {
        vstd::arithmetic::div_mod::lemma_fundamental_div_mod(cardinality as int, n as int);
    }
    assert(i * q <= n * q) by (nonlinear_arith)
        requires
            i <= n,
            q >= 0,
    ;
}

proof fn lemma_total_of_prefix(cardinality: nat, n: nat, i: nat)
    requires
        n >= 1,
        i <= n,
    ensures
        total(shard_sizes_spec(cardinality, n).take(i as int)) == (if i < n {
            (i * (cardinality / n)) as int
        } else {
            cardinality as int
        }),
    decreases i,
{
    let all = shard_sizes_spec(cardinality, n);
    let q: nat = cardinality / n;
    if i > 0 {
        lemma_total_of_prefix(cardinality, n, (i - 1) as nat);
        assert(all.take(i as int).drop_last() =~= all.take(i - 1));
        assert(all.take(i as int).last() == shard_size_at(cardinality, n, i - 1));
        assert((i - 1) * q + q == i * q) by (nonlinear_arith);
    } else {
        assert(0 * q == 0);
    }
}

/// The shard sizes add up to the cardinality, whatever the number of shards.
pub proof fn lemma_shard_sizes_cover(cardinality: nat, n: nat)
    requires
        n >= 1,
    ensures
        total(shard_sizes_spec(cardinality, n)) == cardinality,
        shard_sizes_spec(cardinality, n).len() == n,
        forall|i: int|
            0 <= i < n - 1 ==> #[trigger] shard_sizes_spec(cardinality, n)[i] == cardinality / n,
        shard_sizes_spec(cardinality, n)[n - 1] == cardinality - (n - 1) * (cardinality / n),
        forall|i: int|
            0 <= i < n && n <= cardinality ==> #[trigger] shard_sizes_spec(cardinality, n)[i] >= 1,
{
    let all = shard_sizes_spec(cardinality, n);
    lemma_total_of_prefix(cardinality, n, n);
    assert(all.take(n as int) =~= all);
    let q: nat = cardinality / n;
    lemma_chunks_fit(cardinality, n, (n - 1) as nat);
    if n <= cardinality {
        assert(q >= 1) by {
            vstd::arithmetic::div_mod::lemma_fundamental_div_mod(cardinality as int, n as int);
            assert(n * q + cardinality % n == cardinality);
            if q == 0 {
                assert(n * q == 0) by (nonlinear_arith)
                    requires
                        q == 0,
                ;
                assert(cardinality % n < n);
            }
        }
        assert(cardinality - (n - 1) * q >= 1) by {
            lemma_chunks_fit(cardinality, n, n);
            assert(n * q == (n - 1) * q + q) by (nonlinear_arith);
        }
    }
}

/// The partition threshold of a shard: the base-two logarithm of its
/// cardinality, rounded up.
pub fn partition_threshold(cardinality: usize) -> (t: usize)
    ensures
        t == ceil_log2(cardinality as nat),
{
    let mut m: usize = cardinality;
    let mut t: usize = 0;
    while m > 1
        invariant
            ceil_log2(cardinality as nat) == t + ceil_log2(m as nat),
            t + m <= cardinality || m <= 1,
        decreases m,
    {
        m = m / 2 + m % 2;
        t = t + 1;
    }
    t
}

/// Cuts `cardinality` items into `n` contiguous shards and returns their
/// sizes in order. All shards but the last hold `cardinality / n` items; the
/// last one takes the remainder as well. A sharding that would leave a shard
/// empty, or that asks for no shard at all, is refused.
pub fn shard_sizes(cardinality: usize, n: usize) -> (r: Result<Vec<usize>, HarnessError>)
    ensures
        shardable(cardinality as nat, n as nat) <==> r is Ok,
        r is Ok ==> sizes_of(r->Ok_0@) == shard_sizes_spec(cardinality as nat, n as nat),
        r is Ok ==> total(sizes_of(r->Ok_0@)) == cardinality,
        r is Err ==> r->Err_0 == (HarnessError::DegenerateShard { cardinality, shards: n }),
{
    if n == 0 || n > cardinality {
        return Err(HarnessError::DegenerateShard { cardinality, shards: n });
    }
    proof {
        lemma_shard_sizes_cover(cardinality as nat, n as nat);
    }
    let chunk: usize = cardinality / n;
    let mut sizes: Vec<usize> = Vec::new();
    let mut i: usize = 1;
    while i < n
        invariant
            1 <= i <= n <= cardinality,
            chunk == cardinality / n,
            sizes@.len() == i - 1,
            forall|j: int| 0 <= j < sizes@.len() ==> sizes@[j] == chunk,
        decreases n - i,
    {
        sizes.push(chunk);
        i = i + 1;
    }
    proof {
        lemma_chunks_fit(cardinality as nat, n as nat, (n - 1) as nat);
    }
    let last: usize = cardinality - (n - 1) * chunk;
    sizes.push(last);
    assert(sizes_of(sizes@) =~= shard_sizes_spec(cardinality as nat, n as nat));
    Ok(sizes)
}

/// One shard of a collection: the items from `start` on, `size` of them,
/// with the partition threshold that an index over them is built with.
#[derive(Clone, Copy, Debug, PartialEq, Eq, Structural)]
pub struct Shard {
    pub ordinal: usize,
    pub start: usize,
    pub size: usize,
    pub threshold: usize,
}

impl Shard {
    /// The name of this shard: the word `shard`, a hyphen and its ordinal.
    pub open spec fn spec_name(&self) -> Seq<char> {
        "shard-"@ + decimal(self.ordinal as nat)
    }

    /// The name of this shard, for reports and logs.
    pub fn name(&self) -> (s: String)
        ensures
            s@ == self.spec_name(),
    {
        let mut s: String = String::from_str("shard-");
        push_decimal(&mut s, self.ordinal);
        s
    }
}

/// Shard `i` of the `n` shards that `cardinality` items are cut into.
pub open spec fn shard_at(cardinality: nat, n: nat, i: int) -> Shard {
    Shard {
        ordinal: i as usize,
        start: (i * (cardinality / n)) as usize,
        size: shard_size_at(cardinality, n, i) as usize,
        threshold: ceil_log2(shard_size_at(cardinality, n, i) as nat) as usize,
    }
}

/// All `n` shards, in order.
pub open spec fn plan_spec(cardinality: nat, n: nat) -> Seq<Shard> {
    Seq::new(n, |i: int| shard_at(cardinality, n, i))
}

/// Whether a sequence of shards covers `cardinality` items exactly: the
/// first shard starts at the first item, each shard starts where the one
/// before it ends, the last shard ends with the last item, no shard is empty,
/// and each shard carries its place in the sequence and the threshold that
/// belongs to its size.
pub open spec fn covers(shards: Seq<Shard>, cardinality: nat) -> bool {
    &&& shards.len() >= 1
    &&& shards[0].start == 0
    &&& forall|i: int|
        0 <= i < shards.len() - 1 ==> (#[trigger] shards[i]).start + shards[i].size == shards[i
            + 1].start
    &&& shards.last().start + shards.last().size == cardinality
    &&& forall|i: int|
        0 <= i < shards.len() ==> {
            &&& (#[trigger] shards[i]).ordinal == i
            &&& shards[i].size >= 1
            &&& shards[i].threshold == ceil_log2(shards[i].size as nat)
        }
}

/// The sizes of a sequence of shards, in order.
pub open spec fn sizes_in(shards: Seq<Shard>) -> Seq<int> {
    shards.map_values(|s: Shard| s.size as int)
}

proof fn lemma_threshold_fits(size: nat)
    requires
        size <= usize::MAX,
    ensures
        ceil_log2(size) <= size,
    decreases size,
{
    if size > 1 {
        lemma_threshold_fits((size + 1) / 2);
    }
}

/// A planned sharding covers the collection exactly, and the sizes of its
/// shards are the planned sizes.
pub proof fn lemma_plan_covers(cardinality: nat, n: nat)
    requires
        shardable(cardinality, n),
        cardinality <= usize::MAX,
    ensures
        covers(plan_spec(cardinality, n), cardinality),
        sizes_in(plan_spec(cardinality, n)) == shard_sizes_spec(cardinality, n),
        total(sizes_in(plan_spec(cardinality, n))) == cardinality,
{
    let plan = plan_spec(cardinality, n);
    let q: nat = cardinality / n;
    lemma_shard_sizes_cover(cardinality, n);
    assert forall|i: int| 0 <= i < n implies {
        &&& 0 <= i * q <= cardinality
        &&& 1 <= shard_size_at(cardinality, n, i) <= cardinality
        &&& i * q + shard_size_at(cardinality, n, i) == (if i < n - 1 {
            (i + 1) * q
        } else {
            cardinality as int
        })
    } by {
        lemma_chunks_fit(cardinality, n, i as nat);
        lemma_chunks_fit(cardinality, n, (i + 1) as nat);
        assert(i * q + q == (i + 1) * q) by (nonlinear_arith);
        assert(shard_sizes_spec(cardinality, n)[i] >= 1);
    }
    assert forall|i: int| 0 <= i < n implies {
        &&& (#[trigger] plan[i]).ordinal == i
        &&& plan[i].start == i * q
        &&& plan[i].size == shard_size_at(cardinality, n, i)
        &&& plan[i].threshold == ceil_log2(plan[i].size as nat)
    } by {
        lemma_threshold_fits(shard_size_at(cardinality, n, i) as nat);
    }
    assert(plan[0].start == 0) by {
        assert(0 * q == 0);
    }
    assert forall|i: int| 0 <= i < plan.len() - 1 implies (#[trigger] plan[i]).start
        + plan[i].size == plan[i + 1].start by {
        assert(plan[i + 1].start == (i + 1) * q);
    }
    assert(sizes_in(plan) =~= shard_sizes_spec(cardinality, n));
}

/// Cuts `cardinality` items into `n` contiguous shards. Each shard gets its
/// ordinal, the range of items it holds, and the partition threshold that
/// belongs to its size. A sharding that would leave a shard empty, or that
/// asks for no shard at all, is refused.
pub fn plan_shards(cardinality: usize, n: usize) -> (r: Result<Vec<Shard>, HarnessError>)
    ensures
        shardable(cardinality as nat, n as nat) <==> r is Ok,
        r is Ok ==> r->Ok_0@ == plan_spec(cardinality as nat, n as nat),
        r is Ok ==> covers(r->Ok_0@, cardinality as nat),
        r is Err ==> r->Err_0 == (HarnessError::DegenerateShard { cardinality, shards: n }),
{
    if n == 0 || n > cardinality {
        return Err(HarnessError::DegenerateShard { cardinality, shards: n });
    }
    let chunk: usize = cardinality / n;
    let mut shards: Vec<Shard> = Vec::new();
    let mut i: usize = 0;
    let mut start: usize = 0;
    proof {
        lemma_plan_covers(cardinality as nat, n as nat);
        assert(0 * (cardinality as nat / n as nat) == 0);
    }
    while i < n
        invariant
            i <= n,
            1 <= n <= cardinality,
            chunk == cardinality / n,
            i < n ==> start == i * chunk,
            shards@.len() == i,
            covers(plan_spec(cardinality as nat, n as nat), cardinality as nat),
            forall|j: int|
                0 <= j < i ==> shards@[j] == shard_at(cardinality as nat, n as nat, j),
        decreases n - i,
    {
        proof {
            lemma_chunks_fit(cardinality as nat, n as nat, i as nat);
            lemma_chunks_fit(cardinality as nat, n as nat, (i + 1) as nat);
            assert(i * chunk + chunk == (i + 1) * chunk) by (nonlinear_arith);
            assert(plan_spec(cardinality as nat, n as nat)[i as int] == shard_at(
                cardinality as nat,
                n as nat,
                i as int,
            ));
        }
        let size: usize = if i < n - 1 {
            chunk
        } else {
            cardinality - start
        };
        let shard = Shard { ordinal: i, start, size, threshold: partition_threshold(size) };
        shards.push(shard);
        if i < n - 1 {
            start = start + chunk;
        }
        i = i + 1;
    }
    assert(shards@ =~= plan_spec(cardinality as nat, n as nat));
    Ok(shards)
}

} // verus!
