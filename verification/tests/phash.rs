use chasam_core::phash::difference_hash;
use chasam_core::phash::distance;
use chasam_core::phash::hex_to_u64;
use chasam_core::phash::HexParseError;

#[test]
fn test_hex_to_u64() {
    let hex = String::from("F4F9DB52780CDE9A");
    let result = match hex_to_u64(&hex) {
        Ok(v) => v,
        _ => 0,
    };
    assert_eq!(result, 17652381361703280282);
}

#[test]
fn hex_to_u64_accepts_lowercase_and_mixed_case() {
    assert_eq!(hex_to_u64("ff"), Ok(255));
    assert_eq!(hex_to_u64("0"), Ok(0));
    assert_eq!(hex_to_u64("DeadBeef"), Ok(0xdeadbeef));
    assert_eq!(hex_to_u64("ffffffffffffffff"), Ok(u64::MAX));
}

#[test]
fn hex_to_u64_rejects_empty_input() {
    assert_eq!(hex_to_u64(""), Err(HexParseError::Empty));
}

#[test]
fn hex_to_u64_rejects_non_digits() {
    assert_eq!(hex_to_u64("12g4"), Err(HexParseError::InvalidDigit));
    assert_eq!(hex_to_u64("+12"), Err(HexParseError::InvalidDigit));
    assert_eq!(
        hex_to_u64("ffffffffffffffffzz"),
        Err(HexParseError::InvalidDigit)
    );
}

#[test]
fn hex_to_u64_rejects_values_beyond_64_bits() {
    assert_eq!(hex_to_u64("10000000000000000"), Err(HexParseError::Overflow));
    assert_eq!(hex_to_u64("FFFFFFFFFFFFFFFFF"), Err(HexParseError::Overflow));
}

#[test]
fn distance_counts_differing_bits() {
    assert_eq!(distance(0, 0), 0);
    assert_eq!(distance(0, u64::MAX), 64);
    assert_eq!(distance(0b1010, 0b0101), 4);
    assert_eq!(distance(0b1010, 0b1000), 1);
}

#[test]
fn distance_is_symmetric_and_zero_on_self() {
    let a: u64 = 15634510955120228568;
    let b: u64 = 15634510955120226520;
    assert_eq!(distance(a, b), distance(b, a));
    assert_eq!(distance(a, a), 0);
    assert_eq!(distance(a, b), 1);
}

#[test]
fn difference_hash_is_deterministic_and_bitwise_exact() {
    // a gradient that falls left to right: every comparison is true
    let falling: Vec<Vec<u8>> = (0..8)
        .map(|_| (0..9).map(|x| (100 - 10 * x) as u8).collect())
        .collect();
    assert_eq!(difference_hash(&falling), u64::MAX);

    // a flat grid: no comparison is true
    let flat: Vec<Vec<u8>> = vec![vec![7; 9]; 8];
    assert_eq!(difference_hash(&flat), 0);

    // only the first comparison of the first row is true: bit 63 alone
    let mut one = vec![vec![0u8; 9]; 8];
    one[0][0] = 9;
    assert_eq!(difference_hash(&one), 1u64 << 63);

    // computing the same grid twice gives the same signature
    assert_eq!(difference_hash(&falling), difference_hash(&falling));
}
