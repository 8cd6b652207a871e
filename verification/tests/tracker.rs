use jaro::matching_distance;
use jaro::similarity_parts;
use jaro::DataWrapper;

#[test]
fn fresh_tracker_is_unmarked() {
    let small = DataWrapper::build(16);
    for i in 0..16 {
        assert!(!small.get(i));
    }
    let large = DataWrapper::build(200);
    for i in 0..200 {
        assert!(!large.get(i));
    }
}

#[test]
fn marking_is_idempotent_in_both_representations() {
    for capacity in [120usize, 200] {
        let mut tracker = DataWrapper::build(capacity);
        tracker.set_true(3);
        tracker.set_true(capacity - 1);
        tracker.set_true(3);
        for i in 0..capacity {
            assert_eq!(tracker.get(i), i == 3 || i == capacity - 1);
        }
    }
}

#[test]
fn representations_agree_on_the_same_marks() {
    let mut bits = DataWrapper::build(128);
    let mut flags = DataWrapper::build(129);
    for idx in [0usize, 1, 17, 63, 64, 100, 127] {
        bits.set_true(idx);
        flags.set_true(idx);
    }
    for i in 0..128 {
        assert_eq!(bits.get(i), flags.get(i));
    }
}

#[test]
fn matching_distance_values() {
    assert_eq!(matching_distance(0, 0), 0);
    assert_eq!(matching_distance(1, 1), 0);
    assert_eq!(matching_distance(2, 2), 0);
    assert_eq!(matching_distance(3, 3), 0);
    assert_eq!(matching_distance(4, 4), 1);
    assert_eq!(matching_distance(5, 4), 1);
    assert_eq!(matching_distance(4, 5), 1);
    assert_eq!(matching_distance(129, 430), 214);
}

/// Reference computation of the integer core that always uses boolean
/// vectors, never the bitmask.
fn reference_parts(a: &[u8], b: &[u8]) -> Option<(usize, usize, usize, usize, usize)> {
    let (long, short) = if a.len() < b.len() { (b, a) } else { (a, b) };
    let (s1_len, s2_len) = (long.len(), short.len());
    if a == b || s1_len == 0 || s2_len == 0 {
        return None;
    }
    let range = (s1_len / 2).saturating_sub(1);
    let mut s1m = vec![false; s1_len];
    let mut s2m = vec![false; s2_len];
    let mut matching = 0usize;
    for i in 0..s2_len {
        let lo = i.saturating_sub(range);
        let hi = (i + range + 1).min(s1_len);
        for j in lo..hi {
            if short[i] == long[j] && !s1m[j] {
                s1m[j] = true;
                s2m[i] = true;
                matching += 1;
                break;
            }
        }
    }
    if matching == 0 {
        return None;
    }
    let mut traw = 0usize;
    let mut l = 0usize;
    for i in 0..s2_len - 1 {
        if s2m[i] {
            let mut j = l;
            while j < s1_len {
                if s1m[j] {
                    l = j + 1;
                    break;
                }
                j += 1;
            }
            if short[i] != long[j] {
                traw += 1;
            }
        }
    }
    let transpositions = traw.div_ceil(2);
    let mut prefix = 0usize;
    for k in 0..s2_len.min(4) {
        if long[k] == short[k] {
            prefix += 1;
        } else {
            break;
        }
    }
    Some((matching, transpositions, prefix, s1_len, s2_len))
}

#[test]
fn representation_threshold_does_not_change_results() {
    // Sides of length 127, 128, 129 and 260 cross the bitmask/vector
    // threshold; the outcome must match a reference that never uses the
    // bitmask.
    let mut state = 0x9e37_79b9_u32;
    let mut bytes = |len: usize, alphabet: &[u8]| -> Vec<u8> {
        let mut v = Vec::with_capacity(len);
        for _ in 0..len {
            state = state.wrapping_mul(1_664_525).wrapping_add(1_013_904_223);
            v.push(alphabet[(state >> 24) as usize % alphabet.len()]);
        }
        v
    };
    let lengths = [1usize, 4, 64, 127, 128, 129, 200, 260];
    let mut samples: Vec<Vec<u8>> = Vec::new();
    for len in lengths {
        samples.push(bytes(len, b"abcd"));
        samples.push(bytes(len, b"ab"));
    }
    for a in &samples {
        for b in &samples {
            let got = similarity_parts(a, b);
            match reference_parts(a, b) {
                Some((matching, transpositions, prefix_length, long_len, short_len)) => {
                    assert_eq!(
                        got,
                        jaro::Similarity::Partial {
                            matching,
                            transpositions,
                            prefix_length,
                            long_len,
                            short_len
                        }
                    );
                }
                None => {
                    assert!(matches!(
                        got,
                        jaro::Similarity::Exact | jaro::Similarity::Disjoint
                    ));
                }
            }
        }
    }
}
