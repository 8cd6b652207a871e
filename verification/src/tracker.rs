//! Match tracker: a positional presence set over the indices of one input.
//!
//! A tracker records which positions of a string have been consumed by the
//! matching scan.  For small capacities it is a single machine word used as a
//! bitmask, so that short inputs need no heap allocation; for larger
//! capacities it is a boolean vector.  Both representations satisfy the same
//! contract, stated through `cap` and `marked`, so the choice cannot affect
//! any result derived from it.

use vstd::prelude::*;

verus! {

/// Presence set over positions `0 .. cap()`, write-once per index.
pub enum DataWrapper {
    /// Inline bitmask; position `i` is marked iff bit `i` is set.
    Bits(u128),
    /// One boolean per position, for capacities above the bitmask width.
    Flags(Vec<bool>),
}

impl DataWrapper {
    /// Number of positions the tracker can record.
    pub open spec fn cap(&self) -> int {
        match self {
            DataWrapper::Bits(_) => 128,
            DataWrapper::Flags(v) => v.len() as int,
        }
    }

    /// Whether position `i` has been marked.
    pub open spec fn marked(&self, i: int) -> bool {
        match self {
            DataWrapper::Bits(bits) => (bits >> (i as u128)) & 1 == 1,
            DataWrapper::Flags(v) => v[i],
        }
    }

    /// Builds a tracker for `len` positions, all initially unmarked.
    pub fn build(len: usize) -> (r: Self)
        ensures
            len <= r.cap(),
            forall|i: int| 0 <= i < r.cap() ==> !r.marked(i),
    {
        if len <= 128 {
            let r = DataWrapper::Bits(0);
            proof {
                assert forall|i: int| 0 <= i < r.cap() implies !r.marked(i) by {
                    lemma_zero_bit(i as u128);
                }
            }
            r
        } else {
            let mut flags: Vec<bool> = Vec::with_capacity(len);
            while flags.len() < len
                invariant
                    flags.len() <= len,
                    forall|i: int| 0 <= i < flags.len() ==> !flags[i],
                decreases len - flags.len(),
            {
                flags.push(false);
            }
            DataWrapper::Flags(flags)
        }
    }

    /// Returns whether `idx` has been marked.
    pub fn get(&self, idx: usize) -> (r: bool)
        requires
            idx < self.cap(),
        ensures
            r == self.marked(idx as int),
    {
        match self {
            DataWrapper::Bits(bits) => (*bits >> (idx as u128)) & 1 == 1,
            DataWrapper::Flags(v) => v[idx],
        }
    }

    /// Marks `idx`; every other position keeps its state, so marking twice
    /// has the same effect as marking once.
    pub fn set_true(&mut self, idx: usize)
        requires
            idx < old(self).cap(),
        ensures
            final(self).cap() == old(self).cap(),
            final(self).marked(idx as int),
            forall|i: int| 0 <= i < final(self).cap() && i != idx ==> final(self).marked(i) == old(self).marked(i),
    {
        match self {
            DataWrapper::Bits(bits) => {
                proof {
                    lemma_set_bit(*bits, idx as u128);
                }
                *bits = *bits | (1u128 << (idx as u128));
            },
            DataWrapper::Flags(v) => {
                v[idx] = true;
            },
        }
    }
}

/// In the all-zero word no bit is set.
proof fn lemma_zero_bit(i: u128)
    by (bit_vector)
    requires
        i < 128,
    ensures
        (0u128 >> i) & 1 != 1,
{
}

/// Setting bit `u` sets exactly that bit and leaves every other bit alone.
proof fn lemma_set_bit(b: u128, u: u128)
    by (bit_vector)
    requires
        u < 128,
    ensures
        ((b | (1u128 << u)) >> u) & 1 == 1,
        forall|w: u128| #![auto] w < 128 && w != u ==> ((b | (1u128 << u)) >> w) & 1 == (b >> w) & 1,
{
}

} // verus!
