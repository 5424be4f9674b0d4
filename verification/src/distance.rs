//! Distances as a search reports them, and the total order in which the
//! harness compares them.
//!
//! A distance is kept as the bit pattern of a single-precision number in the
//! IEEE 754 binary32 layout: one sign bit, eight exponent bits, twenty-three
//! fraction bits. Its rank is a natural number chosen so that ranks order the
//! patterns as their values are ordered: negative values below positive ones,
//! the two zeros together, and every pattern that is not a number at rank
//! zero, below all others.

use vstd::prelude::*;

verus! {

/// The pattern whose only set bit is the sign bit; also the rank of zero.
pub const SIGN: u32 = 0x8000_0000u32;

/// The pattern of positive infinity: the largest magnitude that is a number.
pub const INFINITE: u32 = 0x7f80_0000u32;

/// The magnitude of a pattern: the pattern without its sign bit.
pub open spec fn magnitude(bits: u32) -> nat {
    (bits % SIGN) as nat
}

/// Whether a pattern stands for no number.
pub open spec fn not_a_number(bits: u32) -> bool {
    magnitude(bits) > INFINITE
}

/// The rank of a pattern in the total order of distances.
pub open spec fn rank_of(bits: u32) -> nat {
    if not_a_number(bits) {
        0
    } else if bits >= SIGN {
        (SIGN - magnitude(bits)) as nat
    } else {
        (SIGN + magnitude(bits)) as nat
    }
}

/// One distance, as its bit pattern.
#[derive(Clone, Copy, Debug, PartialEq, Eq, Structural)]
pub struct Distance {
    pub bits: u32,
}

impl Distance {
    /// The rank of this distance.
    pub open spec fn spec_rank(&self) -> nat {
        rank_of(self.bits)
    }

    /// Wraps a bit pattern.
    pub fn from_bits(bits: u32) -> (d: Distance)
        ensures
            d.bits == bits,
    {
        Distance { bits }
    }

    /// Whether this distance is not a number.
    pub fn is_nan(&self) -> (r: bool)
        ensures
            r == not_a_number(self.bits),
    {
        self.bits % SIGN > INFINITE
    }

    /// The rank of this distance. Comparing ranks compares distances: a
    /// distance that is not a number has rank zero and so lies below every
    /// number, and the two zeros share one rank.
    pub fn rank(&self) -> (r: u32)
        ensures
            r == self.spec_rank(),
    {
        let m: u32 = self.bits % SIGN;
        if m > INFINITE {
            0
        } else if self.bits >= SIGN {
            SIGN - m
        } else {
            SIGN + m
        }
    }

    /// Whether this distance lies strictly below `other` in the total order.
    pub fn below(&self, other: &Distance) -> (r: bool)
        ensures
            r == (self.spec_rank() < other.spec_rank()),
    {
        self.rank() < other.rank()
    }

    /// Whether this distance and `other` share a rank, which is how the
    /// harness decides that two distances are the same.
    pub fn same_as(&self, other: &Distance) -> (r: bool)
        ensures
            r == (self.spec_rank() == other.spec_rank()),
    {
        self.rank() == other.rank()
    }
}

/// One result of a search: an item and its distance from the query.
#[derive(Clone, Copy, Debug, PartialEq, Eq, Structural)]
pub struct Hit {
    pub id: usize,
    pub distance: Distance,
}

/// The ranks of the distances of a set of hits, in the order of the hits.
pub open spec fn ranks_of(hits: Seq<Hit>) -> Seq<u32> {
    hits.map_values(|h: Hit| rank_of(h.distance.bits) as u32)
}

/// Every rank fits in thirty-two bits, and only a pattern that is not a
/// number has rank zero.
pub proof fn lemma_rank_bounds(bits: u32)
    ensures
        rank_of(bits) <= u32::MAX,
        rank_of(bits) == 0 <==> not_a_number(bits),
{
}

/// Numbers of equal rank are the same pattern, but for the two zeros.
pub proof fn lemma_rank_decides_pattern(a: u32, b: u32)
    requires
        !not_a_number(a),
        !not_a_number(b),
        rank_of(a) == rank_of(b),
    ensures
        a == b || (magnitude(a) == 0 && magnitude(b) == 0),
{
}

/// Among non-negative numbers, rank grows with the pattern.
pub proof fn lemma_rank_monotone_on_positive(a: u32, b: u32)
    requires
        a < SIGN,
        b < SIGN,
        !not_a_number(a),
        !not_a_number(b),
    ensures
        a < b <==> rank_of(a) < rank_of(b),
{
}

} // verus!
