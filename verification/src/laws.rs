//! Laws of the similarity outcome.
//!
//! Each proof function states one property of `spec_similarity`, the model
//! that `similarity_parts` is pinned to, so each holds of the executable
//! engine as well.

use vstd::prelude::*;

use crate::engine::spec_similarity;
use crate::engine::Similarity;
use crate::model::lemma_marks_below_le;
use crate::model::lemma_marks_below_mono;
use crate::model::lemma_prefix_from_le;
use crate::model::lemma_scan_invariants;
use crate::model::lemma_trans_le_marks;
use crate::model::marks_below;
use crate::model::spec_long;
use crate::model::spec_matching;
use crate::model::spec_matching_distance;
use crate::model::spec_prefix_len;
use crate::model::spec_raw_transpositions;
use crate::model::spec_scan;
use crate::model::spec_short;

verus! {

/// Swapping the inputs does not change the outcome, whenever the inputs
/// have different lengths or are identical.  With different lengths the
/// normalization produces the same ordered pair either way; identical
/// inputs are `Exact` either way.  For distinct inputs of equal length the
/// transposition walk skips the last index of whichever input plays the
/// shorter role, so the outcome can depend on the order there.
pub proof fn lemma_similarity_symmetric(a: Seq<u8>, b: Seq<u8>)
    requires
        a.len() != b.len() || a == b,
    ensures
        spec_similarity(a, b) == spec_similarity(b, a),
{
    if a != b {
        assert(spec_long(a, b) == spec_long(b, a));
        assert(spec_short(a, b) == spec_short(b, a));
        assert(spec_matching_distance(a.len(), b.len()) == spec_matching_distance(
            b.len(),
            a.len(),
        ));
        assert(spec_matching(a, b) == spec_matching(b, a));
        assert(spec_raw_transpositions(a, b) == spec_raw_transpositions(b, a));
        assert(spec_prefix_len(a, b) == spec_prefix_len(b, a));
    }
}

/// An input compared with itself is an exact match, the empty input
/// included.
pub proof fn lemma_self_similarity(a: Seq<u8>)
    ensures
        spec_similarity(a, a) == Similarity::Exact,
{
}

/// When exactly one input is empty, the outcome is `Disjoint`.
pub proof fn lemma_one_empty_is_disjoint(a: Seq<u8>, b: Seq<u8>)
    requires
        (a.len() == 0) != (b.len() == 0),
    ensures
        spec_similarity(a, b) == Similarity::Disjoint,
{
    assert(a != b) by {
        if a == b {
            assert(a.len() == b.len());
        }
    }
}

/// Bounds on a `Partial` outcome: at least one position matches, no more
/// than the shorter length, the shorter length does not exceed the longer,
/// transpositions never exceed the matches, and the prefix is at most four
/// and at most the shorter length.  In the score formula these bounds place
/// each of the three Jaro summands in [0, 1] and the prefix boost below
/// `1 - jaro`, so the resulting score lies in [0, 1].
pub proof fn lemma_partial_bounds(a: Seq<u8>, b: Seq<u8>)
    requires
        a.len() <= usize::MAX,
        b.len() <= usize::MAX,
    ensures
        spec_similarity(a, b) matches Similarity::Partial {
            matching,
            transpositions,
            prefix_length,
            long_len,
            short_len,
        } ==> 1 <= matching && matching <= short_len && short_len <= long_len && transpositions
            <= matching && prefix_length <= 4 && prefix_length <= short_len,
{
    if a != b && a.len() != 0 && b.len() != 0 && spec_matching(a, b) != 0 {
        let long = spec_long(a, b);
        let short = spec_short(a, b);
        let r = spec_matching_distance(a.len(), b.len());
        let masks = spec_scan(long, short, r, short.len() as int);
        lemma_scan_invariants(long, short, r, short.len() as int);
        lemma_marks_below_le(masks.1, short.len() as int);
        lemma_trans_le_marks(long, short, masks.0, masks.1, 0, 0);
        lemma_marks_below_le(masks.1, short.len() as int - 1);
        lemma_marks_below_mono(masks.1, short.len() as int - 1, short.len() as int);
        lemma_prefix_from_le(long, short, 0);
    }
}

} // verus!
