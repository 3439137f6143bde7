use syx::receive::{
    assemble, decode_tokens, frame_payload, keep_bytes, receive_line, same_text, Base, SYSEX_WORD,
};

#[test]
fn invalid_token_is_skipped() {
    assert_eq!(decode_tokens(Base::Hex, &["30", "ZZ", "28"]), vec![0x30, 0x28]);
    assert_eq!(
        receive_line(&["system-exclusive", "hex", "30", "ZZ", "28"]),
        Some(vec![0xF0, 0x30, 0x28, 0xF7])
    );
}

#[test]
fn assembles_hex_tokens() {
    assert_eq!(
        assemble(Base::Hex, &["42", "30", "7f", "0A"]),
        vec![0xF0, 0x42, 0x30, 0x7F, 0x0A, 0xF7]
    );
}

#[test]
fn assembles_decimal_tokens() {
    assert_eq!(assemble(Base::Decimal, &["66", "48", "127"]), vec![0xF0, 66, 48, 127, 0xF7]);
}

#[test]
fn tokens_out_of_byte_range_are_skipped() {
    assert_eq!(decode_tokens(Base::Decimal, &["255", "256", "-1", "0"]), vec![255, 0]);
    assert_eq!(decode_tokens(Base::Hex, &["ff", "100", "", "7"]), vec![0xFF, 0x07]);
}

#[test]
fn base_decides_how_a_token_reads() {
    assert_eq!(decode_tokens(Base::Hex, &["10"]), vec![16]);
    assert_eq!(decode_tokens(Base::Decimal, &["10"]), vec![10]);
    assert_eq!(decode_tokens(Base::Decimal, &["1f"]), Vec::<u8>::new());
}

#[test]
fn no_tokens_give_an_empty_message() {
    assert_eq!(assemble(Base::Hex, &[]), vec![0xF0, 0xF7]);
    assert_eq!(assemble(Base::Hex, &["zz", "yy"]), vec![0xF0, 0xF7]);
}

#[test]
fn keep_bytes_drops_failures_in_place() {
    assert_eq!(keep_bytes(&[Some(0x30), None, Some(0x28)]), vec![0x30, 0x28]);
    assert_eq!(keep_bytes(&[None, None]), Vec::<u8>::new());
    assert_eq!(keep_bytes(&[]), Vec::<u8>::new());
    assert_eq!(keep_bytes(&[Some(3), Some(2), Some(1)]), vec![3, 2, 1]);
}

#[test]
fn frame_payload_adds_both_framing_bytes() {
    assert_eq!(frame_payload(&[]), vec![0xF0, 0xF7]);
    assert_eq!(frame_payload(&[0x30, 0x28]), vec![0xF0, 0x30, 0x28, 0xF7]);
}

#[test]
fn base_words() {
    assert_eq!(Base::from_word("hex"), Base::Hex);
    assert_eq!(Base::from_word("dec"), Base::Decimal);
    assert_eq!(Base::from_word("HEX"), Base::Decimal);
    assert_eq!(Base::from_word(""), Base::Decimal);
    assert_eq!(Base::Hex.radix(), 16);
    assert_eq!(Base::Decimal.radix(), 10);
}

#[test]
fn line_needs_three_words() {
    assert_eq!(receive_line(&[]), None);
    assert_eq!(receive_line(&["system-exclusive"]), None);
    assert_eq!(receive_line(&["system-exclusive", "hex"]), None);
    assert_eq!(receive_line(&["system-exclusive", "hex", "30"]), Some(vec![0xF0, 0x30, 0xF7]));
}

#[test]
fn line_of_another_kind_is_ignored() {
    assert_eq!(receive_line(&["note-on", "hex", "30", "28"]), None);
    assert_eq!(receive_line(&["System-Exclusive", "hex", "30", "28"]), None);
}

#[test]
fn line_in_decimal() {
    assert_eq!(
        receive_line(&["system-exclusive", "dec", "66", "300", "48"]),
        Some(vec![0xF0, 66, 48, 0xF7])
    );
}

#[test]
fn line_with_only_invalid_tokens() {
    assert_eq!(receive_line(&["system-exclusive", "hex", "zz"]), Some(vec![0xF0, 0xF7]));
}

#[test]
fn same_text_compares_whole_strings() {
    assert!(same_text("hex", "hex"));
    assert!(!same_text("hex", "he"));
    assert!(!same_text("hex", "hex "));
    assert!(same_text(SYSEX_WORD, "system-exclusive"));
}

#[test]
fn plus_sign_may_lead_a_token() {
    assert_eq!(decode_tokens(Base::Hex, &["+30", "+7f", "+0"]), vec![0x30, 0x7F, 0x00]);
    assert_eq!(decode_tokens(Base::Decimal, &["+48", "+255"]), vec![48, 255]);
}

#[test]
fn sign_without_digits_is_no_byte() {
    assert_eq!(decode_tokens(Base::Hex, &["+", "-", "", "++1", "+-1", "1+"]), Vec::<u8>::new());
    assert_eq!(decode_tokens(Base::Decimal, &["-0", "-1", "- 1"]), Vec::<u8>::new());
}

#[test]
fn leading_zeros_do_not_change_the_value() {
    assert_eq!(decode_tokens(Base::Hex, &["0030", "000", "00ff"]), vec![0x30, 0x00, 0xFF]);
    assert_eq!(decode_tokens(Base::Decimal, &["0000000255", "007"]), vec![255, 7]);
    assert_eq!(decode_tokens(Base::Decimal, &["0000000256"]), Vec::<u8>::new());
}

#[test]
fn digits_count_in_either_letter_case() {
    assert_eq!(decode_tokens(Base::Hex, &["ab", "AB", "aB", "Ab"]), vec![0xAB; 4]);
    assert_eq!(decode_tokens(Base::Hex, &["f", "F", "a", "A"]), vec![15, 15, 10, 10]);
}

#[test]
fn letters_beyond_the_radix_are_no_digits() {
    assert_eq!(decode_tokens(Base::Hex, &["g", "G", "z", "1g", "g1"]), Vec::<u8>::new());
    assert_eq!(decode_tokens(Base::Decimal, &["a", "A", "f", "1a"]), Vec::<u8>::new());
}

#[test]
fn anything_but_digits_spoils_a_token() {
    let spoiled = [" 30", "30 ", "3_0", "0x30", "3.0", "30h", "\u{ff13}\u{ff10}", "é", "3é"];
    assert_eq!(decode_tokens(Base::Hex, &spoiled), Vec::<u8>::new());
    assert_eq!(decode_tokens(Base::Decimal, &spoiled), Vec::<u8>::new());
}

#[test]
fn largest_and_first_too_large_numbers() {
    assert_eq!(decode_tokens(Base::Hex, &["ff", "100", "fff"]), vec![0xFF]);
    assert_eq!(decode_tokens(Base::Decimal, &["255", "256", "999", "99999999999999999999"]), vec![255]);
}

#[test]
fn every_byte_reads_back_in_both_bases() {
    for b in 0..=255u8 {
        let hex = format!("{:x}", b);
        let upper = format!("{:02X}", b);
        let dec = format!("{}", b);
        assert_eq!(decode_tokens(Base::Hex, &[hex.as_str(), upper.as_str()]), vec![b, b]);
        assert_eq!(decode_tokens(Base::Decimal, &[dec.as_str()]), vec![b]);
    }
}
