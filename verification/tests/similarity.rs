use jaro::similarity_parts;
use jaro::Similarity;

/// Combines the verified integer core into the Jaro-Winkler score.
fn jaro_winkler(left: &str, right: &str) -> f64 {
    score_bytes(left.as_bytes(), right.as_bytes())
}

fn score_bytes(left: &[u8], right: &[u8]) -> f64 {
    match similarity_parts(left, right) {
        Similarity::Exact => 1.0,
        Similarity::Disjoint => 0.0,
        Similarity::Partial { matching, transpositions, prefix_length, long_len, short_len } => {
            let m = matching as f64;
            let t = transpositions as f64;
            let jaro = (m / (long_len as f64) + m / (short_len as f64) + (m - t) / m) / 3.0;
            jaro + (prefix_length as f64) * 0.1 * (1.0 - jaro)
        }
    }
}

#[test]
fn different_is_zero() {
    assert_eq!(jaro_winkler("foo", "bar"), 0.0);
}

#[test]
fn same_is_one() {
    assert_eq!(jaro_winkler("foo", "foo"), 1.0);
    assert_eq!(jaro_winkler("", ""), 1.0);
}

#[test]
fn test_hello() {
    assert_eq!(jaro_winkler("hell", "hello"), 0.96);
}

#[test]
fn test_boundary() {
    let long_value = "test result: ok. 0 passed; 0 failed; 0 ignored; 0 measured; 0 filtered out; finished in 0.00s Doc-tests jaro running 0 tests test result: ok. 0 passed; 0 failed; 0 ignored; 0 measured; 0 filtered out; finished in 0.00s";
    let longer_value = "test result: ok. 0 passed; 0 failed; 0 ignored; 0 measured;test result: ok. 0 passed; 0 failed; 0 ignored; 0 measured;test result: ok. 0 passed; 0 failed; 0 ignored; 0 measured;test result: ok. 0 passed; 0 failed; 0 ignored; 0 measured;test result: ok. 0 passed; 0 failed; 0 ignored; 0 measured; 0 filtered out; finished in 0.00s Doc-tests jaro running 0 tests test result: ok. 0 passed; 0 failed; 0 ignored; 0 measured; 0 filtered out; finished in 0.00s";
    let result = jaro_winkler(long_value, longer_value);
    assert!((result - 0.82_f64).abs() <= 0.01);
}

#[test]
fn test_close_to_boundary() {
    let long_value = "test result: ok. 0 passed; 0 failed; 0 ignored; 0 measured; 0 filtered out; finished in 0.00s Doc-tests jaro running 0 tests test";
    assert_eq!(long_value.len(), 129);
    let longer_value = "test result: ok. 0 passed; 0 failed; 0 ignored; 0 measured;test result: ok. 0 passed; 0 failed; 0 ignored; 0 measured;test result: ok. 0 passed; 0 failed; 0 ignored; 0 measured;test result: ok. 0 passed; 0 failed; 0 ignored; 0 measured;test result: ok. 0 passed; 0 failed; 0 ignored; 0 measured; 0 filtered out; finished in 0.00s Doc-tests jaro running 0 tests test result: ok. 0 passed; 0 failed; 0 ignored; 0 measured; 0 filtered out; finished in 0.00s";
    let result = jaro_winkler(long_value, longer_value);
    assert!((result - 0.8_f64).abs() <= 0.001);
}

#[test]
fn hello_parts_are_exact() {
    let expected = Similarity::Partial {
        matching: 4,
        transpositions: 0,
        prefix_length: 4,
        long_len: 5,
        short_len: 4,
    };
    assert_eq!(similarity_parts(b"hell", b"hello"), expected);
    assert_eq!(similarity_parts(b"hello", b"hell"), expected);
}

#[test]
fn transpositions_are_counted() {
    // "martha" / "marhta": 6 matches, the h/t pair swapped, prefix "mar".
    let r = similarity_parts(b"martha", b"marhta");
    let expected = Similarity::Partial {
        matching: 6,
        transpositions: 1,
        prefix_length: 3,
        long_len: 6,
        short_len: 6,
    };
    assert_eq!(r, expected);
    let score = jaro_winkler("martha", "marhta");
    assert!((score - 0.9611111111111111_f64).abs() <= 1e-12);
}

#[test]
fn no_match_is_disjoint() {
    assert_eq!(similarity_parts(b"foo", b"bar"), Similarity::Disjoint);
}

#[test]
fn one_empty_is_disjoint() {
    assert_eq!(similarity_parts(b"", b"abc"), Similarity::Disjoint);
    assert_eq!(similarity_parts(b"abc", b""), Similarity::Disjoint);
    assert_eq!(jaro_winkler("", "abc"), 0.0);
    assert_eq!(jaro_winkler("abc", ""), 0.0);
}

#[test]
fn identical_is_exact() {
    assert_eq!(similarity_parts(b"", b""), Similarity::Exact);
    assert_eq!(similarity_parts(b"abcd", b"abcd"), Similarity::Exact);
}

#[test]
fn symmetric_for_unequal_lengths() {
    let pairs: [(&str, &str); 4] =
        [("hello", "hell"), ("dixon", "dicksonx"), ("a", "ab"), ("crate", "trace me")];
    for (a, b) in pairs {
        assert_eq!(similarity_parts(a.as_bytes(), b.as_bytes()), similarity_parts(b.as_bytes(), a.as_bytes()));
        assert_eq!(jaro_winkler(a, b), jaro_winkler(b, a));
    }
}

#[test]
fn score_is_within_unit_interval() {
    // Arbitrary byte sequences, including non-ASCII bytes and repeats.
    let mut samples: Vec<Vec<u8>> = Vec::new();
    samples.push(Vec::new());
    let mut state: u32 = 0x1234_5678;
    for len in [1usize, 2, 3, 5, 17, 64, 127, 128, 129, 200] {
        let mut v = Vec::with_capacity(len);
        for _ in 0..len {
            state = state.wrapping_mul(1_664_525).wrapping_add(1_013_904_223);
            v.push((state >> 24) as u8);
        }
        samples.push(v);
    }
    for a in &samples {
        for b in &samples {
            let score = score_bytes(a, b);
            assert!((0.0..=1.0).contains(&score));
            let parts = similarity_parts(a, b);
            if let Similarity::Partial { matching, transpositions, prefix_length, long_len, short_len } = parts {
                assert!(matching >= 1);
                assert!(matching <= short_len);
                assert!(short_len <= long_len);
                assert!(transpositions <= matching);
                assert!(prefix_length <= 4);
                let m = matching as f64;
                let t = transpositions as f64;
                let jaro =
                    (m / (long_len as f64) + m / (short_len as f64) + (m - t) / m) / 3.0;
                let boosted = jaro + (prefix_length as f64) * 0.1 * (1.0 - jaro);
                assert!((0.0..=1.0).contains(&jaro));
                assert!((0.0..=1.0).contains(&boosted));
            }
        }
    }
}
