use aria2_sync::decimal::{decode_u64, encode_u64};

#[test]
fn encode_zero_is_a_single_digit() {
    assert_eq!(encode_u64(0), "0");
}

#[test]
fn encode_small_numbers() {
    assert_eq!(encode_u64(7), "7");
    assert_eq!(encode_u64(10), "10");
    assert_eq!(encode_u64(1000), "1000");
    assert_eq!(encode_u64(9_876_543_210), "9876543210");
}

#[test]
fn encode_largest_value() {
    assert_eq!(encode_u64(u64::MAX), "18446744073709551615");
}

#[test]
fn decode_reads_canonical_text() {
    assert_eq!(decode_u64("0"), Some(0));
    assert_eq!(decode_u64("9"), Some(9));
    assert_eq!(decode_u64("10"), Some(10));
    assert_eq!(decode_u64("1234567890"), Some(1_234_567_890));
    assert_eq!(decode_u64("18446744073709551615"), Some(u64::MAX));
}

#[test]
fn decode_refuses_the_empty_text() {
    assert_eq!(decode_u64(""), None);
}

#[test]
fn decode_refuses_a_sign() {
    assert_eq!(decode_u64("+1"), None);
    assert_eq!(decode_u64("-1"), None);
    assert_eq!(decode_u64("-0"), None);
}

#[test]
fn decode_refuses_leading_zeros() {
    assert_eq!(decode_u64("00"), None);
    assert_eq!(decode_u64("007"), None);
    assert_eq!(decode_u64("01"), None);
}

#[test]
fn decode_refuses_a_fraction_and_other_characters() {
    assert_eq!(decode_u64("1.5"), None);
    assert_eq!(decode_u64("12a"), None);
    assert_eq!(decode_u64(" 1"), None);
    assert_eq!(decode_u64("1 "), None);
    assert_eq!(decode_u64("0x10"), None);
    assert_eq!(decode_u64("1e3"), None);
}

#[test]
fn decode_refuses_digits_outside_ascii() {
    assert_eq!(decode_u64("\u{ff11}\u{ff12}"), None);
    assert_eq!(decode_u64("1\u{0663}"), None);
}

#[test]
fn decode_refuses_what_does_not_fit() {
    assert_eq!(decode_u64("18446744073709551616"), None);
    assert_eq!(decode_u64("18446744073709551620"), None);
    assert_eq!(decode_u64("99999999999999999999"), None);
    assert_eq!(decode_u64("100000000000000000000000"), None);
}

#[test]
fn round_trip_over_the_whole_range() {
    let samples: [u64; 12] = [
        0,
        1,
        9,
        10,
        99,
        100,
        4_294_967_295,
        4_294_967_296,
        9_999_999_999_999_999_999,
        10_000_000_000_000_000_000,
        u64::MAX - 1,
        u64::MAX,
    ];
    for n in samples {
        assert_eq!(decode_u64(&encode_u64(n)), Some(n));
    }
}

#[test]
fn decoded_text_encodes_to_itself() {
    for text in ["0", "5", "42", "1000", "18446744073709551615"] {
        let n = decode_u64(text).unwrap();
        assert_eq!(encode_u64(n), text);
    }
}
