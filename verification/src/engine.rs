//! Similarity engine: the verified integer core of the Jaro-Winkler score.
//!
//! `similarity_parts` normalizes the two inputs (longer first), handles the
//! degenerate cases, runs the greedy matching scan over two match trackers,
//! walks the marks to count transpositions, and measures the common prefix.
//! Its result is pinned to the model's spec functions; the floating-point
//! score is a fixed formula over these integers that a caller applies.

use vstd::prelude::*;

use crate::model::lemma_first_match_found;
use crate::model::lemma_first_match_none;
use crate::model::lemma_marks_below_le;
use crate::model::lemma_marks_below_mono;
use crate::model::lemma_marks_below_update;
use crate::model::lemma_next_marked_found;
use crate::model::lemma_next_marked_props;
use crate::model::lemma_prefix_from_eq;
use crate::model::lemma_scan_invariants;
use crate::model::lemma_trans_le_marks;
use crate::model::marks_below;
use crate::model::spec_long;
use crate::model::spec_matching;
use crate::model::spec_matching_distance;
use crate::model::spec_prefix_from;
use crate::model::spec_prefix_len;
use crate::model::spec_raw_transpositions;
use crate::model::spec_scan;
use crate::model::spec_short;
use crate::model::spec_trans;
use crate::model::spec_window_hi;
use crate::model::spec_window_lo;
use crate::tracker::DataWrapper;

verus! {

/// Outcome of the integer core.
///
/// `Exact` stands for the score 1, `Disjoint` for the score 0, and
/// `Partial` carries the integers from which the Jaro-Winkler formula
/// produces the score:
/// `jaro = (matching/long_len + matching/short_len
///          + (matching - transpositions)/matching) / 3`,
/// boosted to `jaro + prefix_length * 0.1 * (1 - jaro)`.
#[derive(Clone, Copy, Debug, PartialEq, Eq, Structural)]
pub enum Similarity {
    /// The inputs are byte-for-byte identical; the score is 1.
    Exact,
    /// Exactly one input is empty, or no positions match; the score is 0.
    Disjoint,
    /// The integers the score formula combines.
    Partial {
        /// Number of matched positions; at least 1.
        matching: usize,
        /// Halved (rounded up) transposition count.
        transpositions: usize,
        /// Common-prefix length, capped at 4.
        prefix_length: usize,
        /// Length of the not-shorter input.
        long_len: usize,
        /// Length of the not-longer input.
        short_len: usize,
    },
}

/// The outcome of the integer core, defined over the model.
pub open spec fn spec_similarity(a: Seq<u8>, b: Seq<u8>) -> Similarity {
    if a == b {
        Similarity::Exact
    } else if a.len() == 0 || b.len() == 0 {
        Similarity::Disjoint
    } else if spec_matching(a, b) == 0 {
        Similarity::Disjoint
    } else {
        Similarity::Partial {
            matching: spec_matching(a, b) as usize,
            transpositions: ((spec_raw_transpositions(a, b) + 1) / 2) as usize,
            prefix_length: spec_prefix_len(a, b) as usize,
            long_len: spec_long(a, b).len() as usize,
            short_len: spec_short(a, b).len() as usize,
        }
    }
}

/// Matching distance for two input lengths: half the longer one, less one,
/// clamped at zero.
pub fn matching_distance(s1_len: usize, s2_len: usize) -> (r: usize)
    ensures
        r == spec_matching_distance(s1_len as nat, s2_len as nat),
{
    let max: usize = if s1_len >= s2_len {
        s1_len
    } else {
        s2_len
    };
    let half: usize = max / 2;
    if half >= 1 {
        half - 1
    } else {
        0
    }
}

/// Byte-for-byte equality of the two inputs.
fn bytes_equal(a: &[u8], b: &[u8]) -> (r: bool)
    ensures
        r == (a@ == b@),
{
    if a.len() != b.len() {
        return false;
    }
    let mut i: usize = 0;
    while i < a.len()
        invariant
            i <= a@.len(),
            a@.len() == b@.len(),
            forall|k: int| 0 <= k < i ==> a@[k] == b@[k],
        decreases a@.len() - i,
    {
        if a[i] != b[i] {
            return false;
        }
        i += 1;
    }
    proof {
        assert(a@ =~= b@);
    }
    true
}

/// First position in `[lo, hi)` of `long` that holds `c` and is still
/// unmarked in `tracker`, scanning in increasing order.
fn scan_window(long: &[u8], tracker: &DataWrapper, c: u8, lo: usize, hi: usize) -> (r: Option<
    usize,
>)
    requires
        lo <= hi,
        hi <= long@.len(),
        long@.len() <= tracker.cap(),
    ensures
        match r {
            Some(j) => lo <= j < hi && long@[j as int] == c && !tracker.marked(j as int) && forall|
                k: int,
            | lo <= k < j ==> !(long@[k] == c && !tracker.marked(k)),
            None => forall|k: int| lo <= k < hi ==> !(long@[k] == c && !tracker.marked(k)),
        },
{
    let mut j = lo;
    while j < hi
        invariant
            lo <= j <= hi,
            hi <= long@.len(),
            long@.len() <= tracker.cap(),
            forall|k: int| lo <= k < j ==> !(long@[k] == c && !tracker.marked(k)),
        decreases hi - j,
    {
        if long[j] == c && !tracker.get(j) {
            return Some(j);
        }
        j += 1;
    }
    None
}

/// First marked position of `tracker` at or after `from`, or `len` if no
/// position below `len` is marked there.
fn next_marked(tracker: &DataWrapper, from: usize, len: usize) -> (r: usize)
    requires
        from <= len,
        len <= tracker.cap(),
    ensures
        from <= r <= len,
        forall|k: int| from <= k < r ==> !tracker.marked(k),
        r < len ==> tracker.marked(r as int),
{
    let mut j = from;
    while j < len
        invariant
            from <= j <= len,
            len <= tracker.cap(),
            forall|k: int| from <= k < j ==> !tracker.marked(k),
        decreases len - j,
    {
        if tracker.get(j) {
            return j;
        }
        j += 1;
    }
    len
}

/// Number of leading positions (up to four) where the two inputs agree.
fn prefix_length(long: &[u8], short: &[u8]) -> (r: usize)
    requires
        short@.len() <= long@.len(),
    ensures
        r == spec_prefix_from(long@, short@, 0),
{
    let limit: usize = if short.len() < 4 {
        short.len()
    } else {
        4
    };
    let mut k: usize = 0;
    while k < limit
        invariant
            k <= limit,
            limit <= short@.len(),
            short@.len() <= long@.len(),
            limit <= 4,
            limit == 4 || limit == short@.len(),
            forall|t: int| 0 <= t < k ==> long@[t] == short@[t],
        decreases limit - k,
    {
        if long[k] != short[k] {
            proof {
                lemma_prefix_from_eq(long@, short@, 0, k as int);
            }
            return k;
        }
        k += 1;
    }
    proof {
        lemma_prefix_from_eq(long@, short@, 0, limit as int);
    }
    limit
}

/// The integer core of the Jaro-Winkler similarity of `a` and `b`.
///
/// Normalizes the pair (longer first), returns `Exact` for identical inputs,
/// `Disjoint` when exactly one input is empty or when the matching scan
/// marks nothing, and otherwise the matched, transposition and prefix counts
/// together with both lengths.
pub fn similarity_parts(a: &[u8], b: &[u8]) -> (r: Similarity)
    ensures
        r == spec_similarity(a@, b@),
{
    if bytes_equal(a, b) {
        return Similarity::Exact;
    }
    if a.len() == 0 || b.len() == 0 {
        return Similarity::Disjoint;
    }
    let (long, short) = if a.len() < b.len() {
        (b, a)
    } else {
        (a, b)
    };
    let ghost glong = long@;
    let ghost gshort = short@;
    proof {
        assert(glong == spec_long(a@, b@));
        assert(gshort == spec_short(a@, b@));
    }
    let s1_len = long.len();
    let s2_len = short.len();
    let range = matching_distance(s1_len, s2_len);
    proof {
        assert(spec_matching_distance(s1_len as nat, s2_len as nat) == spec_matching_distance(
            a@.len(),
            b@.len(),
        ));
        assert(s1_len / 2 <= s1_len);
        assert(range + 1 <= s1_len);
    }
    let mut s1m = DataWrapper::build(s1_len);
    let mut s2m = DataWrapper::build(s2_len);
    let mut matching: usize = 0;
    let mut i: usize = 0;
    while i < s2_len
        invariant
            i <= s2_len,
            long@ == glong,
            short@ == gshort,
            s1_len == glong.len(),
            s2_len == gshort.len(),
            1 <= s2_len <= s1_len,
            range + 1 <= s1_len,
            s1_len <= s1m.cap(),
            s2_len <= s2m.cap(),
            forall|k: int|
                0 <= k < s1_len ==> s1m.marked(k) == spec_scan(
                    glong,
                    gshort,
                    range as nat,
                    i as int,
                ).0[k],
            forall|k: int|
                0 <= k < s2_len ==> s2m.marked(k) == spec_scan(
                    glong,
                    gshort,
                    range as nat,
                    i as int,
                ).1[k],
            matching == marks_below(spec_scan(glong, gshort, range as nat, i as int).1, i as int),
        decreases s2_len - i,
    {
        proof {
            lemma_scan_invariants(glong, gshort, range as nat, i as int);
        }
        let ghost cur = spec_scan(glong, gshort, range as nat, i as int);
        let lo = if i > range {
            i - range
        } else {
            0
        };
        let hi = if i <= s1_len - (range + 1) {
            i + range + 1
        } else {
            s1_len
        };
        proof {
            assert(lo as int == spec_window_lo(i as int, range as nat));
            assert(hi as int == spec_window_hi(i as int, range as nat, s1_len as int));
        }
        let c = short[i];
        match scan_window(long, &s1m, c, lo, hi) {
            Some(j) => {
                proof {
                    assert forall|k: int| lo <= k < j implies !(glong[k] == c && !cur.0[k]) by {
                        assert(s1m.marked(k) == cur.0[k]);
                    }
                    lemma_first_match_found(glong, cur.0, c, lo as int, hi as int, j as int);
                    lemma_marks_below_le(cur.1, i as int);
                    lemma_marks_below_update(cur.1, i as int, i as int);
                }
                s1m.set_true(j);
                s2m.set_true(i);
                matching += 1;
                proof {
                    let nxt = spec_scan(glong, gshort, range as nat, i as int + 1);
                    assert(nxt.0 == cur.0.update(j as int, true));
                    assert(nxt.1 == cur.1.update(i as int, true));
                    assert forall|k: int| 0 <= k < s1_len implies s1m.marked(k) == nxt.0[k] by {}
                    assert forall|k: int| 0 <= k < s2_len implies s2m.marked(k) == nxt.1[k] by {}
                    assert(marks_below(nxt.1, i as int + 1) == marks_below(cur.1, i as int) + 1);
                }
            },
            None => {
                proof {
                    assert forall|k: int| lo <= k < hi implies !(glong[k] == c && !cur.0[k]) by {
                        assert(s1m.marked(k) == cur.0[k]);
                    }
                    lemma_first_match_none(glong, cur.0, c, lo as int, hi as int);
                    let nxt = spec_scan(glong, gshort, range as nat, i as int + 1);
                    assert(nxt == cur);
                    assert(!cur.1[i as int]);
                    assert(marks_below(nxt.1, i as int + 1) == marks_below(cur.1, i as int));
                }
            },
        }
        i += 1;
    }
    proof {
        lemma_scan_invariants(glong, gshort, range as nat, s2_len as int);
    }
    let ghost m1f = spec_scan(glong, gshort, range as nat, s2_len as int).0;
    let ghost m2f = spec_scan(glong, gshort, range as nat, s2_len as int).1;
    proof {
        assert(spec_matching(a@, b@) == marks_below(m2f, s2_len as int));
    }
    if matching == 0 {
        return Similarity::Disjoint;
    }
    let ghost t_total = spec_trans(glong, gshort, m1f, m2f, 0, 0);
    let mut traw: usize = 0;
    let mut l: usize = 0;
    let mut i: usize = 0;
    while i < s2_len - 1
        invariant
            i <= s2_len - 1,
            long@ == glong,
            short@ == gshort,
            1 <= s2_len <= s1_len,
            s1_len == glong.len(),
            s2_len == gshort.len(),
            m1f.len() == s1_len,
            m2f.len() == s2_len,
            l <= s1_len,
            s1_len <= s1m.cap(),
            s2_len <= s2m.cap(),
            forall|k: int| 0 <= k < s1_len ==> s1m.marked(k) == m1f[k],
            forall|k: int| 0 <= k < s2_len ==> s2m.marked(k) == m2f[k],
            matching == marks_below(m2f, s2_len as int),
            matching == marks_below(m1f, s1_len as int),
            matching >= 1,
            marks_below(m1f, l as int) == marks_below(m2f, i as int),
            traw + spec_trans(glong, gshort, m1f, m2f, i as int, l as int) == t_total,
            traw <= marks_below(m2f, i as int),
        decreases s2_len - 1 - i,
    {
        if s2m.get(i) {
            proof {
                lemma_marks_below_mono(m2f, i as int + 1, s2_len as int);
                lemma_next_marked_props(m1f, l as int);
                lemma_marks_below_le(m2f, i as int);
            }
            let j = next_marked(&s1m, l, s1_len);
            proof {
                assert forall|k: int| l <= k < j implies !m1f[k] by {
                    assert(s1m.marked(k) == m1f[k]);
                }
                lemma_next_marked_found(m1f, l as int, j as int);
                assert(j < s1_len) by {
                    if j == s1_len {
                        assert(marks_below(m1f, s1_len as int) == marks_below(m1f, l as int));
                        assert(marks_below(m2f, i as int + 1) == marks_below(m2f, i as int) + 1);
                    }
                }
            }
            l = j + 1;
            if short[i] != long[j] {
                traw += 1;
            }
            i += 1;
        } else {
            i += 1;
        }
    }
    proof {
        assert(spec_trans(glong, gshort, m1f, m2f, i as int, l as int) == 0);
        lemma_marks_below_le(m2f, s2_len as int - 1);
        lemma_marks_below_mono(m2f, i as int, s2_len as int - 1);
        assert(traw == spec_raw_transpositions(a@, b@));
    }
    let transpositions = (traw + 1) / 2;
    let prefix = prefix_length(long, short);
    proof {
        assert(prefix == spec_prefix_len(a@, b@));
    }
    Similarity::Partial {
        matching,
        transpositions,
        prefix_length: prefix,
        long_len: s1_len,
        short_len: s2_len,
    }
}

} // verus!
