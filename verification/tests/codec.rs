use schling_common::hex::{decode, encode, from_hex8, is_hex_digit, DecodeError};

#[test]
fn it_works() {
    let result = 2 + 2;
    assert_eq!(result, 4);
}

#[test]
fn encode_pads_with_zeros_to_eight_uppercase_digits() {
    assert_eq!(encode(0), "00000000");
    assert_eq!(encode(3), "00000003");
    assert_eq!(encode(0xBEEF), "0000BEEF");
    assert_eq!(encode(0x1234_abcd), "1234ABCD");
    assert_eq!(encode(u32::MAX), "FFFFFFFF");
}

#[test]
fn decode_reads_the_first_eight_characters_only() {
    assert_eq!(decode("0000000300000005"), Ok(3));
    assert_eq!(decode("FFFFFFFFxyz"), Ok(u32::MAX));
    assert_eq!(decode("0000beef"), Ok(0xBEEF));
    assert_eq!(decode("DeadBeef"), Ok(0xDEAD_BEEF));
}

#[test]
fn decode_rejects_short_and_non_hex_input() {
    assert_eq!(decode(""), Err(DecodeError::MalformedToken));
    assert_eq!(decode("1234567"), Err(DecodeError::MalformedToken));
    assert_eq!(decode("0000000G"), Err(DecodeError::MalformedToken));
    assert_eq!(decode("+0000003"), Err(DecodeError::MalformedToken));
    assert_eq!(decode("000\u{e9}0003"), Err(DecodeError::MalformedToken));
}

#[test]
fn decode_inverts_encode_on_chosen_values() {
    for v in [0u32, 1, 9, 10, 15, 16, 255, 256, 0x8000_0000, 0xFFFF_FFFE, u32::MAX] {
        assert_eq!(decode(&encode(v)), Ok(v));
    }
}

#[test]
fn from_hex8_wants_exactly_eight_digits() {
    assert_eq!(from_hex8("0000002A"), Ok(42));
    assert_eq!(from_hex8("0000002A0"), Err(DecodeError::MalformedToken));
    assert_eq!(from_hex8("2A"), Err(DecodeError::MalformedToken));
}

#[test]
fn hex_digits_are_recognised_in_either_case() {
    for c in "0123456789abcdefABCDEF".chars() {
        assert!(is_hex_digit(c));
    }
    for c in "gG/:@`xX -+".chars() {
        assert!(!is_hex_digit(c));
    }
}
