//! Mathematical model of the Jaro-Winkler integer core.
//!
//! Every quantity the engine computes is defined here over byte sequences:
//! the matching distance, the greedy leftmost-first matching scan (as a pair
//! of mark sequences), the count of marks, the cursor-driven transposition
//! walk, and the common-prefix length.  The engine's contracts and the
//! library's laws all speak in terms of these functions.

use vstd::prelude::*;

verus! {

/// The not-shorter of the two inputs; ties keep the first.
pub open spec fn spec_long(a: Seq<u8>, b: Seq<u8>) -> Seq<u8> {
    if a.len() < b.len() {
        b
    } else {
        a
    }
}

/// The not-longer of the two inputs; ties keep the second.
pub open spec fn spec_short(a: Seq<u8>, b: Seq<u8>) -> Seq<u8> {
    if a.len() < b.len() {
        a
    } else {
        b
    }
}

/// Matching distance: half the longer length, less one, clamped at zero.
pub open spec fn spec_matching_distance(la: nat, lb: nat) -> nat {
    let m = if la >= lb {
        la
    } else {
        lb
    };
    if m / 2 >= 1 {
        (m / 2 - 1) as nat
    } else {
        0
    }
}

/// First index `j` in `[lo, hi)` whose byte equals `c` and is unmarked.
pub open spec fn spec_first_match(long: Seq<u8>, m1: Seq<bool>, c: u8, lo: int, hi: int) -> Option<
    int,
>
    decreases hi - lo,
{
    if lo >= hi {
        None
    } else if 0 <= lo < long.len() && lo < m1.len() && long[lo] == c && !m1[lo] {
        Some(lo)
    } else {
        spec_first_match(long, m1, c, lo + 1, hi)
    }
}

/// Lower bound of the matching window for short-side index `i`.
pub open spec fn spec_window_lo(i: int, r: nat) -> int {
    if i > r {
        i - r
    } else {
        0
    }
}

/// Upper bound of the matching window for short-side index `i`.
pub open spec fn spec_window_hi(i: int, r: nat, long_len: int) -> int {
    if i + r + 1 <= long_len {
        i + r + 1
    } else {
        long_len
    }
}

/// Mark sequences after the greedy scan has processed short indices `[0, i)`:
/// the first component marks the long side, the second the short side.
pub open spec fn spec_scan(long: Seq<u8>, short: Seq<u8>, r: nat, i: int) -> (Seq<bool>, Seq<bool>)
    decreases i,
{
    if i <= 0 {
        (Seq::new(long.len(), |k: int| false), Seq::new(short.len(), |k: int| false))
    } else {
        let prev = spec_scan(long, short, r, i - 1);
        let lo = spec_window_lo(i - 1, r);
        let hi = spec_window_hi(i - 1, r, long.len() as int);
        match spec_first_match(long, prev.0, short[i - 1], lo, hi) {
            Some(j) => (prev.0.update(j, true), prev.1.update(i - 1, true)),
            None => prev,
        }
    }
}

/// Number of marks among positions `[0, k)`.
pub open spec fn marks_below(m: Seq<bool>, k: int) -> nat
    decreases k,
{
    if k <= 0 {
        0
    } else {
        marks_below(m, k - 1) + (if m[k - 1] {
            1nat
        } else {
            0nat
        })
    }
}

/// Smallest marked index at or after `l`, or `m.len()` if there is none.
pub open spec fn spec_next_marked(m: Seq<bool>, l: int) -> int
    decreases m.len() - l,
{
    if l < 0 {
        spec_next_marked(m, 0)
    } else if l >= m.len() {
        m.len() as int
    } else if m[l] {
        l
    } else {
        spec_next_marked(m, l + 1)
    }
}

/// Raw transposition count of the cursor walk from short index `i` with the
/// long-side cursor at `l`: each marked short index is paired with the next
/// marked long index, and a pair of unequal bytes counts one.  The walk
/// stops before the last short index.
pub open spec fn spec_trans(
    long: Seq<u8>,
    short: Seq<u8>,
    m1: Seq<bool>,
    m2: Seq<bool>,
    i: int,
    l: int,
) -> nat
    decreases short.len() - i,
{
    if i < 0 || i >= short.len() - 1 {
        0
    } else if m2[i] {
        let j = spec_next_marked(m1, l);
        (if 0 <= j < long.len() && short[i] != long[j] {
            1nat
        } else {
            0nat
        }) + spec_trans(long, short, m1, m2, i + 1, j + 1)
    } else {
        spec_trans(long, short, m1, m2, i + 1, l)
    }
}

/// Length of the common prefix from position `k` on, capped at four total
/// positions.
pub open spec fn spec_prefix_from(long: Seq<u8>, short: Seq<u8>, k: int) -> nat
    decreases 4 - k,
{
    if k < 0 || k >= 4 || k >= short.len() || k >= long.len() || long[k] != short[k] {
        0
    } else {
        1 + spec_prefix_from(long, short, k + 1)
    }
}

/// Number of matched positions between the two inputs.
pub open spec fn spec_matching(a: Seq<u8>, b: Seq<u8>) -> nat {
    let long = spec_long(a, b);
    let short = spec_short(a, b);
    let masks = spec_scan(long, short, spec_matching_distance(a.len(), b.len()), short.len() as int);
    marks_below(masks.1, short.len() as int)
}

/// Raw (unhalved) transposition count between the two inputs.
pub open spec fn spec_raw_transpositions(a: Seq<u8>, b: Seq<u8>) -> nat {
    let long = spec_long(a, b);
    let short = spec_short(a, b);
    let masks = spec_scan(long, short, spec_matching_distance(a.len(), b.len()), short.len() as int);
    spec_trans(long, short, masks.0, masks.1, 0, 0)
}

/// Common-prefix length of the two inputs, capped at four.
pub open spec fn spec_prefix_len(a: Seq<u8>, b: Seq<u8>) -> nat {
    spec_prefix_from(spec_long(a, b), spec_short(a, b), 0)
}

/// If no position in `[0, k)` is marked, the count below `k` is zero.
pub proof fn lemma_marks_below_none(m: Seq<bool>, k: int)
    requires
        forall|j: int| 0 <= j < k ==> !m[j],
    ensures
        marks_below(m, k) == 0,
    decreases k,
{
    if k > 0 {
        lemma_marks_below_none(m, k - 1);
    }
}

/// The count below `k` never exceeds `k`.
pub proof fn lemma_marks_below_le(m: Seq<bool>, k: int)
    requires
        0 <= k,
    ensures
        marks_below(m, k) <= k,
    decreases k,
{
    if k > 0 {
        lemma_marks_below_le(m, k - 1);
    }
}

/// The count below a bound is monotone in the bound.
pub proof fn lemma_marks_below_mono(m: Seq<bool>, k1: int, k2: int)
    requires
        k1 <= k2,
    ensures
        marks_below(m, k1) <= marks_below(m, k2),
    decreases k2 - k1,
{
    if k1 < k2 {
        lemma_marks_below_mono(m, k1, k2 - 1);
    }
}

/// How marking one position changes the count below `k`: not at all when the
/// position is at or beyond `k` or already marked, by one otherwise.
pub proof fn lemma_marks_below_update(m: Seq<bool>, j: int, k: int)
    requires
        0 <= j < m.len(),
        k <= m.len(),
    ensures
        j >= k ==> marks_below(m.update(j, true), k) == marks_below(m, k),
        j < k && m[j] ==> marks_below(m.update(j, true), k) == marks_below(m, k),
        j < k && !m[j] ==> marks_below(m.update(j, true), k) == marks_below(m, k) + 1,
    decreases k,
{
    if k > 0 {
        lemma_marks_below_update(m, j, k - 1);
    }
}

/// A found first match lies in the window, is unmarked, and equals `c`.
pub proof fn lemma_first_match_props(long: Seq<u8>, m1: Seq<bool>, c: u8, lo: int, hi: int)
    requires
        m1.len() == long.len(),
    ensures
        match spec_first_match(long, m1, c, lo, hi) {
            Some(j) => lo <= j < hi && 0 <= j < long.len() && long[j] == c && !m1[j],
            None => true,
        },
    decreases hi - lo,
{
    if lo < hi && !(0 <= lo < long.len() && lo < m1.len() && long[lo] == c && !m1[lo]) {
        lemma_first_match_props(long, m1, c, lo + 1, hi);
    }
}

/// The first match is the index an in-order search stops at.
pub proof fn lemma_first_match_found(
    long: Seq<u8>,
    m1: Seq<bool>,
    c: u8,
    lo: int,
    hi: int,
    j: int,
)
    requires
        m1.len() == long.len(),
        0 <= lo <= j < hi <= long.len(),
        long[j] == c,
        !m1[j],
        forall|k: int| lo <= k < j ==> !(long[k] == c && !m1[k]),
    ensures
        spec_first_match(long, m1, c, lo, hi) == Some(j),
    decreases j - lo,
{
    if lo < j {
        lemma_first_match_found(long, m1, c, lo + 1, hi, j);
    }
}

/// Where an in-order search finds nothing, there is no first match.
pub proof fn lemma_first_match_none(long: Seq<u8>, m1: Seq<bool>, c: u8, lo: int, hi: int)
    requires
        m1.len() == long.len(),
        hi <= long.len(),
        forall|k: int| lo <= k < hi ==> !(long[k] == c && !m1[k]),
    ensures
        spec_first_match(long, m1, c, lo, hi) == None::<int>,
    decreases hi - lo,
{
    if lo < hi {
        lemma_first_match_none(long, m1, c, lo + 1, hi);
    }
}

/// Scan bookkeeping after `i` steps: the mark sequences keep the input
/// lengths, no short index at or beyond `i` is marked, and both sides carry
/// the same number of marks.
pub proof fn lemma_scan_invariants(long: Seq<u8>, short: Seq<u8>, r: nat, i: int)
    requires
        0 <= i <= short.len(),
    ensures
        spec_scan(long, short, r, i).0.len() == long.len(),
        spec_scan(long, short, r, i).1.len() == short.len(),
        forall|k: int| i <= k < short.len() ==> !spec_scan(long, short, r, i).1[k],
        marks_below(spec_scan(long, short, r, i).0, long.len() as int) == marks_below(
            spec_scan(long, short, r, i).1,
            i,
        ),
    decreases i,
{
    if i <= 0 {
        let masks = spec_scan(long, short, r, i);
        lemma_marks_below_none(masks.0, long.len() as int);
        lemma_marks_below_none(masks.1, i);
    } else {
        lemma_scan_invariants(long, short, r, i - 1);
        let prev = spec_scan(long, short, r, i - 1);
        let lo = spec_window_lo(i - 1, r);
        let hi = spec_window_hi(i - 1, r, long.len() as int);
        lemma_first_match_props(long, prev.0, short[i - 1], lo, hi);
        match spec_first_match(long, prev.0, short[i - 1], lo, hi) {
            Some(j) => {
                lemma_marks_below_update(prev.0, j, long.len() as int);
                lemma_marks_below_update(prev.1, i - 1, i - 1);
            },
            None => {},
        }
    }
}

/// Properties of the next-marked cursor step: the found index is the first
/// marked one at or after `l`, and skipping to it keeps the mark count.
pub proof fn lemma_next_marked_props(m: Seq<bool>, l: int)
    requires
        0 <= l <= m.len(),
    ensures
        l <= spec_next_marked(m, l) <= m.len(),
        spec_next_marked(m, l) < m.len() ==> m[spec_next_marked(m, l)],
        forall|k: int| l <= k < spec_next_marked(m, l) ==> !m[k],
        marks_below(m, spec_next_marked(m, l)) == marks_below(m, l),
    decreases m.len() - l,
{
    if l < m.len() && !m[l] {
        lemma_next_marked_props(m, l + 1);
    }
}

/// The next-marked cursor is what an in-order search finds.
pub proof fn lemma_next_marked_found(m: Seq<bool>, l: int, j: int)
    requires
        0 <= l <= j <= m.len(),
        forall|k: int| l <= k < j ==> !m[k],
        j < m.len() ==> m[j],
    ensures
        spec_next_marked(m, l) == j,
    decreases j - l,
{
    if l < j {
        lemma_next_marked_found(m, l + 1, j);
    }
}

/// The raw transposition count of the walk from `i` is bounded by the marks
/// the walk can still visit on the short side.
pub proof fn lemma_trans_le_marks(
    long: Seq<u8>,
    short: Seq<u8>,
    m1: Seq<bool>,
    m2: Seq<bool>,
    i: int,
    l: int,
)
    requires
        0 <= i <= short.len() - 1,
    ensures
        spec_trans(long, short, m1, m2, i, l) + marks_below(m2, i) <= marks_below(
            m2,
            short.len() - 1,
        ),
    decreases short.len() - i,
{
    if i < short.len() - 1 {
        if m2[i] {
            let j = spec_next_marked(m1, l);
            lemma_trans_le_marks(long, short, m1, m2, i + 1, j + 1);
        } else {
            lemma_trans_le_marks(long, short, m1, m2, i + 1, l);
        }
    }
}

/// The prefix count from `i` equals the length of the run of equal bytes
/// found by an in-order search stopped at `k`.
pub proof fn lemma_prefix_from_eq(long: Seq<u8>, short: Seq<u8>, i: int, k: int)
    requires
        0 <= i <= k,
        k <= long.len(),
        k <= short.len(),
        k <= 4,
        forall|t: int| i <= t < k ==> long[t] == short[t],
        k == 4 || k == short.len() || (k < long.len() && k < short.len() && long[k] != short[k]),
    ensures
        spec_prefix_from(long, short, i) == k - i,
    decreases k - i,
{
    if i < k {
        lemma_prefix_from_eq(long, short, i + 1, k);
    }
}

/// The prefix count never exceeds four, nor the shorter length.
pub proof fn lemma_prefix_from_le(long: Seq<u8>, short: Seq<u8>, k: int)
    requires
        0 <= k <= 4,
    ensures
        spec_prefix_from(long, short, k) + k <= 4,
        spec_prefix_from(long, short, k) == 0 || spec_prefix_from(long, short, k) + k
            <= short.len(),
    decreases 4 - k,
{
    if !(k < 0 || k >= 4 || k >= short.len() || k >= long.len() || long[k] != short[k]) {
        lemma_prefix_from_le(long, short, k + 1);
    }
}

} // verus!
