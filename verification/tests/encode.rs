use url_shortener::encode;

#[test]
fn encode_zero() {
    assert_eq!(encode(0), "0");
}

#[test]
fn encode_single_digits() {
    assert_eq!(encode(1), "1");
    assert_eq!(encode(10), "a");
    assert_eq!(encode(61), "Z");
}

#[test]
fn encode_carries() {
    // 62 in base 10 is "10" in base 62
    assert_eq!(encode(62), "10");
    assert_eq!(encode(62 * 62), "100");
}

#[test]
fn encode_alphabet_order() {
    assert_eq!(encode(9), "9");
    assert_eq!(encode(35), "z");
    assert_eq!(encode(36), "A");
    assert_eq!(encode(63), "11");
    assert_eq!(encode(123), "1Z");
    assert_eq!(encode(3843), "ZZ");
    assert_eq!(encode(3844), "100");
}

#[test]
fn encode_largest_number() {
    assert_eq!(encode(u64::MAX), "lYGhA16ahyf");
}

fn decode(s: &str) -> u64 {
    let mut n: u64 = 0;
    for c in s.chars() {
        let d = match c {
            '0'..='9' => c as u64 - '0' as u64,
            'a'..='z' => c as u64 - 'a' as u64 + 10,
            'A'..='Z' => c as u64 - 'A' as u64 + 36,
            _ => panic!("not a base-62 digit"),
        };
        n = n * 62 + d;
    }
    n
}

#[test]
fn encode_round_trips_and_is_injective() {
    let mut seen = std::collections::HashSet::new();
    for n in 0..5000u64 {
        let code = encode(n);
        assert_eq!(decode(&code), n);
        assert!(code == "0" || !code.starts_with('0'));
        assert!(seen.insert(code));
    }
    for n in [u64::MAX, u64::MAX - 1, 1 << 40, 916132831, 916132832] {
        assert_eq!(decode(&encode(n)), n);
    }
}
