use syx::commands::{
    build_message, decimal_text, extract_payload, identify_messages, make_message,
    manufacturer_from_hex, parse_each, part_name, resolve_manufacturer, split_parts, CommandError,
};
use syx::hexcode::decode;
use syx::manufacturer::Manufacturer;
use syx::message::{Message, UniversalKind};
use syx::wire::SysexError;

#[test]
fn identify_single_message() {
    let buffer = [0xF0, 0x42, 0x30, 0x28, 0xF7];
    assert_eq!(
        identify_messages(&buffer),
        Ok(vec![Message::ManufacturerSpecific {
            manufacturer: Manufacturer::Standard(0x42),
            payload: vec![0x30, 0x28],
        }])
    );
}

#[test]
fn identify_several_messages() {
    let buffer = [0xF0, 0x42, 0x01, 0xF7, 0xF0, 0x7E, 0x00, 0x06, 0x01, 0xF7];
    assert_eq!(
        identify_messages(&buffer),
        Ok(vec![
            Message::ManufacturerSpecific {
                manufacturer: Manufacturer::Standard(0x42),
                payload: vec![0x01],
            },
            Message::Universal {
                kind: UniversalKind::NonRealTime,
                target: 0x00,
                sub_id1: 0x06,
                sub_id2: 0x01,
                payload: vec![],
            },
        ])
    );
}

#[test]
fn identify_nothing() {
    assert_eq!(identify_messages(&[]), Ok(vec![]));
    assert_eq!(identify_messages(&[0x01, 0x02]), Ok(vec![]));
}

#[test]
fn identify_parses_a_lone_message_with_its_surroundings() {
    assert_eq!(identify_messages(&[0x01, 0xF0, 0x42, 0xF7]), Err(SysexError::MalformedFraming));
}

#[test]
fn identify_reports_the_first_failure() {
    let buffer = [0xF0, 0x42, 0xF7, 0xF0, 0xF7, 0xF0, 0x80, 0xF7];
    assert_eq!(identify_messages(&buffer), Err(SysexError::TruncatedHeader));
    let buffer = [0xF0, 0x80, 0xF7, 0xF0, 0xF7];
    assert_eq!(identify_messages(&buffer), Err(SysexError::InvalidManufacturerPrefix));
}

#[test]
fn parse_each_keeps_the_order() {
    let parts = vec![vec![0xF0, 0x43, 0xF7], vec![0xF0, 0x42, 0xF7]];
    let messages = parse_each(&parts).unwrap();
    assert_eq!(messages[0].to_bytes(), parts[0]);
    assert_eq!(messages[1].to_bytes(), parts[1]);
    assert_eq!(parse_each(&vec![]), Ok(vec![]));
    assert_eq!(parse_each(&vec![vec![0xF0, 0x43, 0xF7], vec![]]), Err(SysexError::MalformedFraming));
}

#[test]
fn extract_payload_of_single_message() {
    assert_eq!(
        extract_payload(&[0xF0, 0x42, 0x30, 0x28, 0x54, 0x02, 0x5C, 0xF7]),
        Ok(vec![0x30, 0x28, 0x54, 0x02, 0x5C])
    );
    assert_eq!(extract_payload(&[0xF0, 0x7E, 0x01, 0x06, 0x02, 0x09, 0xF7]), Ok(vec![0x09]));
    assert_eq!(extract_payload(&[0xF0, 0x00, 0x21, 0x09, 0xF7]), Ok(vec![]));
}

#[test]
fn extract_refuses_several_messages() {
    let buffer = [0xF0, 0x42, 0x01, 0xF7, 0xF0, 0x43, 0x02, 0xF7];
    assert_eq!(extract_payload(&buffer), Err(CommandError::MultipleMessages));
}

#[test]
fn extract_reports_parse_errors() {
    assert_eq!(extract_payload(&[]), Err(CommandError::Invalid(SysexError::MalformedFraming)));
    assert_eq!(
        extract_payload(&[0xF0, 0x00, 0x01, 0xF7]),
        Err(CommandError::Invalid(SysexError::TruncatedHeader))
    );
    assert_eq!(
        extract_payload(&[0xF0, 0x90, 0x01, 0xF7]),
        Err(CommandError::Invalid(SysexError::InvalidManufacturerPrefix))
    );
}

#[test]
fn split_parts_of_several_messages() {
    let buffer = [0xF0, 0x42, 0x01, 0xF7, 0xF0, 0x43, 0x02, 0xF7];
    assert_eq!(
        split_parts(&buffer),
        vec![vec![0xF0, 0x42, 0x01, 0xF7], vec![0xF0, 0x43, 0x02, 0xF7]]
    );
}

#[test]
fn split_parts_of_a_single_message_are_none() {
    assert_eq!(split_parts(&[0xF0, 0x42, 0x01, 0xF7]), Vec::<Vec<u8>>::new());
    assert_eq!(split_parts(&[]), Vec::<Vec<u8>>::new());
}

#[test]
fn part_names_have_three_digits() {
    assert_eq!(part_name("dump", 1, "syx"), "dump-001.syx");
    assert_eq!(part_name("dump", 9, "syx"), "dump-009.syx");
    assert_eq!(part_name("dump", 10, "syx"), "dump-010.syx");
    assert_eq!(part_name("dump", 99, "syx"), "dump-099.syx");
    assert_eq!(part_name("dump", 100, "syx"), "dump-100.syx");
    assert_eq!(part_name("dump", 999, "syx"), "dump-999.syx");
    assert_eq!(part_name("dump", 1000, "syx"), "dump-1000.syx");
    assert_eq!(part_name("", 0, ""), "-000.");
}

#[test]
fn part_names_agree_with_the_formatter() {
    for n in [0usize, 7, 42, 120, 4096, 65535, usize::MAX] {
        assert_eq!(part_name("a", n, "b"), format!("{}-{:0>3}.{}", "a", n, "b"));
        assert_eq!(decimal_text(n), format!("{}", n));
    }
}

#[test]
fn hex_text_decodes_into_bytes() {
    assert_eq!(decode(b"3028"), Ok(vec![0x30, 0x28]));
    assert_eq!(decode(b"0a0B"), Ok(vec![0x0A, 0x0B]));
    assert_eq!(decode(b"fF00"), Ok(vec![0xFF, 0x00]));
    assert_eq!(decode(b"9a"), Ok(vec![0x9A]));
    assert_eq!(decode(b""), Ok(vec![]));
}

#[test]
fn bad_hex_text_is_a_decode_error() {
    assert_eq!(decode(b"123"), Err(SysexError::DecodeError));
    assert_eq!(decode(b"zz"), Err(SysexError::DecodeError));
    assert_eq!(decode(b"0g"), Err(SysexError::DecodeError));
    assert_eq!(decode(b"30 28"), Err(SysexError::DecodeError));
    assert_eq!(decode(b"@0"), Err(SysexError::DecodeError));
    assert_eq!(decode(b"0`"), Err(SysexError::DecodeError));
    assert_eq!(decode(b":0"), Err(SysexError::DecodeError));
    assert_eq!(decode(b"/0"), Err(SysexError::DecodeError));
}

#[test]
fn manufacturer_from_hex_reads_both_forms() {
    assert_eq!(manufacturer_from_hex(b"42"), Ok(Manufacturer::Standard(0x42)));
    assert_eq!(manufacturer_from_hex(b"7f"), Ok(Manufacturer::Standard(0x7F)));
    assert_eq!(manufacturer_from_hex(b"01"), Ok(Manufacturer::Standard(0x01)));
    assert_eq!(manufacturer_from_hex(b"002109"), Ok(Manufacturer::Extended([0x00, 0x21, 0x09])));
    assert_eq!(manufacturer_from_hex(b"0000ff"), Ok(Manufacturer::Extended([0x00, 0x00, 0xFF])));
}

#[test]
fn manufacturer_from_hex_checks_the_number_of_digits() {
    assert_eq!(manufacturer_from_hex(b""), Err(SysexError::InvalidManufacturerLength));
    assert_eq!(manufacturer_from_hex(b"4"), Err(SysexError::InvalidManufacturerLength));
    assert_eq!(manufacturer_from_hex(b"424"), Err(SysexError::InvalidManufacturerLength));
    assert_eq!(manufacturer_from_hex(b"00"), Err(SysexError::InvalidManufacturerLength));
    assert_eq!(manufacturer_from_hex(b"0021"), Err(SysexError::InvalidManufacturerLength));
    assert_eq!(manufacturer_from_hex(b"00210900"), Err(SysexError::InvalidManufacturerLength));
    assert_eq!(manufacturer_from_hex(b"012109"), Err(SysexError::InvalidManufacturerLength));
}

#[test]
fn manufacturer_from_hex_checks_the_digits_and_the_identifier() {
    assert_eq!(manufacturer_from_hex(b"4g"), Err(SysexError::DecodeError));
    assert_eq!(manufacturer_from_hex(b"0021zz"), Err(SysexError::DecodeError));
    assert_eq!(manufacturer_from_hex(b"80"), Err(SysexError::InvalidManufacturerPrefix));
    assert_eq!(manufacturer_from_hex(b"f0"), Err(SysexError::InvalidManufacturerPrefix));
}

#[test]
fn resolve_manufacturer_by_identifier_or_name() {
    assert_eq!(resolve_manufacturer("42"), Ok(Manufacturer::Standard(0x42)));
    assert_eq!(resolve_manufacturer("002109"), Ok(Manufacturer::Extended([0x00, 0x21, 0x09])));
    assert_eq!(resolve_manufacturer("yama"), Ok(Manufacturer::Standard(0x43)));
    assert_eq!(resolve_manufacturer("Korg"), Ok(Manufacturer::Standard(0x42)));
    assert_eq!(resolve_manufacturer("humppaurku"), Err(SysexError::ManufacturerNotFound));
    assert_eq!(resolve_manufacturer(""), Err(SysexError::InvalidManufacturerLength));
    assert_eq!(resolve_manufacturer("4"), Err(SysexError::InvalidManufacturerLength));
    assert_eq!(resolve_manufacturer("360 Systems"), Err(SysexError::InvalidManufacturerLength));
    assert_eq!(resolve_manufacturer("8f"), Err(SysexError::ManufacturerNotFound));
}

#[test]
fn build_message_decodes_the_payload() {
    assert_eq!(
        build_message(Manufacturer::Standard(0x42), b"3028"),
        Ok(vec![0xF0, 0x42, 0x30, 0x28, 0xF7])
    );
    assert_eq!(build_message(Manufacturer::Standard(0x42), b""), Ok(vec![0xF0, 0x42, 0xF7]));
    assert_eq!(build_message(Manufacturer::Standard(0x42), b"3"), Err(SysexError::DecodeError));
}

#[test]
fn make_message_from_hex_identifier() {
    assert_eq!(make_message("42", "3028"), Ok(vec![0xF0, 0x42, 0x30, 0x28, 0xF7]));
    assert_eq!(
        make_message("002109", "30285402"),
        Ok(vec![0xF0, 0x00, 0x21, 0x09, 0x30, 0x28, 0x54, 0x02, 0xF7])
    );
}

#[test]
fn make_message_from_name() {
    assert_eq!(make_message("yama", "00"), Ok(vec![0xF0, 0x43, 0x00, 0xF7]));
    assert_eq!(
        make_message("Native Instruments", "7f"),
        Ok(vec![0xF0, 0x00, 0x21, 0x09, 0x7F, 0xF7])
    );
}

#[test]
fn make_message_errors() {
    assert_eq!(make_message("", "00"), Err(SysexError::InvalidManufacturerLength));
    assert_eq!(make_message("4", "00"), Err(SysexError::InvalidManufacturerLength));
    assert_eq!(make_message("0021", "00"), Err(SysexError::InvalidManufacturerLength));
    assert_eq!(make_message("4x", "00"), Err(SysexError::DecodeError));
    assert_eq!(make_message("42", "0"), Err(SysexError::DecodeError));
    assert_eq!(make_message("42", "xy"), Err(SysexError::DecodeError));
    assert_eq!(make_message("humppaurku", "00"), Err(SysexError::ManufacturerNotFound));
    assert_eq!(make_message("humppaurku", "xy"), Err(SysexError::ManufacturerNotFound));
}

#[test]
fn made_message_parses_back() {
    let bytes = make_message("42", "3028").unwrap();
    assert_eq!(
        Message::parse(&bytes),
        Ok(Message::ManufacturerSpecific {
            manufacturer: Manufacturer::Standard(0x42),
            payload: vec![0x30, 0x28],
        })
    );
}
