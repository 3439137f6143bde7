//! What each command of the tool computes, apart from reading and writing
//! files: the decisions it takes on a buffer and the values it reports.

use vstd::prelude::*;
use vstd::string::*;
use crate::hexcode::{decode, digit_value, hex_bytes, is_hex_text, pair_value};
use crate::manufacturer::{code_defect, valid_code, Manufacturer};
use crate::message::{parse_spec, Message, MessageView};
use crate::registry::{
    is_registered, lookup_by_name, name_is_registered, name_starts_with, registered_name,
};
use crate::sections::{message_sections, section_views, sections_of, MessageSection, SectionView};
use crate::splitter::{complete_count, contents, message_count, messages_in, split_messages};
use crate::wire::SysexError;

verus! {

/// Why a command that works on a single message gives no result.
#[derive(Clone, Copy, Debug, PartialEq, Eq, Structural)]
pub enum CommandError {
    /// The buffer holds more than one message; it has to be split first.
    MultipleMessages,
    /// The buffer does not parse as a message.
    Invalid(SysexError),
}

/// The views of a list of messages.
pub open spec fn message_views(messages: Seq<Message>) -> Seq<MessageView> {
    messages.map_values(|m: Message| m@)
}

/// The result of parsing each of `parts` in turn: all the messages, or the
/// error of the first part that fails to parse.
pub open spec fn parse_all(parts: Seq<Seq<u8>>) -> Result<Seq<MessageView>, SysexError>
    decreases parts.len(),
{
    if parts.len() == 0 {
        Ok(Seq::empty())
    } else {
        match parse_all(parts.drop_last()) {
            Err(e) => Err(e),
            Ok(messages) => match parse_spec(parts.last()) {
                Ok(m) => Ok(messages.push(m)),
                Err(e) => Err(e),
            },
        }
    }
}

/// Parses each of `parts` in turn and stops at the first that fails.
pub fn parse_each(parts: &Vec<Vec<u8>>) -> (r: Result<Vec<Message>, SysexError>)
    ensures
        match parse_all(contents(parts@)) {
            Ok(views) => r is Ok && message_views(r.unwrap()@) == views,
            Err(e) => r == Err::<Vec<Message>, SysexError>(e),
        },
{
    let mut messages: Vec<Message> = Vec::new();
    let mut i: usize = 0;
    assert(message_views(messages@) =~= Seq::<MessageView>::empty());
    while i < parts.len()
        invariant
            i <= parts@.len(),
            parse_all(contents(parts@).take(i as int)) == Ok::<Seq<MessageView>, SysexError>(
                message_views(messages@),
            ),
        decreases parts@.len() - i,
    {
        let ghost done = contents(parts@).take(i as int);
        let ghost next = contents(parts@).take(i + 1);
        assert(next.drop_last() =~= done);
        assert(next.last() == parts@[i as int]@);
        match Message::parse(parts[i].as_slice()) {
            Ok(m) => {
                let ghost before = message_views(messages@);
                messages.push(m);
                assert(message_views(messages@) =~= before.push(m@));
            },
            Err(e) => {
                proof {
                    lemma_parse_all_fails_on(contents(parts@), i as int);
                }
                return Err(e);
            },
        }
        i = i + 1;
    }
    assert(contents(parts@).take(i as int) =~= contents(parts@));
    Ok(messages)
}

/// Once the parts up to and including position `i` fail to parse, so do all
/// the parts, with the same error.
proof fn lemma_parse_all_fails_on(parts: Seq<Seq<u8>>, i: int)
    requires
        0 <= i < parts.len(),
        parse_all(parts.take(i + 1)) is Err,
    ensures
        parse_all(parts) == parse_all(parts.take(i + 1)),
    decreases parts.len(),
{
    if i + 1 == parts.len() {
        assert(parts.take(i + 1) =~= parts);
    } else {
        assert(parts.drop_last().take(i + 1) =~= parts.take(i + 1));
        lemma_parse_all_fails_on(parts.drop_last(), i);
    }
}

/// Parsing a list of one part is parsing that part.
proof fn lemma_parse_all_single(b: Seq<u8>)
    ensures
        parse_all(seq![b]) == match parse_spec(b) {
            Ok(m) => Ok::<Seq<MessageView>, SysexError>(seq![m]),
            Err(e) => Err::<Seq<MessageView>, SysexError>(e),
        },
{
    let none = Seq::<Seq<u8>>::empty();
    assert(seq![b].drop_last() =~= none);
    assert(parse_all(none) == Ok::<Seq<MessageView>, SysexError>(Seq::empty()));
    if let Ok(m) = parse_spec(b) {
        assert(Seq::<MessageView>::empty().push(m) =~= seq![m]);
    }
}

/// The messages that a report on `b` describes. A buffer with exactly one
/// complete message is parsed as a whole; otherwise each complete message is
/// parsed by itself.
pub open spec fn identified(b: Seq<u8>) -> Result<Seq<MessageView>, SysexError> {
    if complete_count(b) == 1 {
        parse_all(seq![b])
    } else {
        parse_all(messages_in(b))
    }
}

/// Parses the messages of `buffer` for a report.
pub fn identify_messages(buffer: &[u8]) -> (r: Result<Vec<Message>, SysexError>)
    ensures
        match identified(buffer@) {
            Ok(views) => r is Ok && message_views(r.unwrap()@) == views,
            Err(e) => r == Err::<Vec<Message>, SysexError>(e),
        },
{
    let count = message_count(buffer);
    if count == 1 {
        proof {
            lemma_parse_all_single(buffer@);
        }
        match Message::parse(buffer) {
            Ok(m) => {
                let mut messages: Vec<Message> = Vec::new();
                messages.push(m);
                assert(message_views(messages@) =~= seq![m@]);
                Ok(messages)
            },
            Err(e) => Err(e),
        }
    } else {
        let parts = split_messages(buffer);
        parse_each(&parts)
    }
}

/// The payload that extraction yields for `b`.
pub open spec fn extracted(b: Seq<u8>) -> Result<Seq<u8>, CommandError> {
    if complete_count(b) > 1 {
        Err(CommandError::MultipleMessages)
    } else {
        match parse_spec(b) {
            Ok(m) => Ok(m.payload()),
            Err(e) => Err(CommandError::Invalid(e)),
        }
    }
}

/// Extracts the payload of the single message in `buffer`.
pub fn extract_payload(buffer: &[u8]) -> (r: Result<Vec<u8>, CommandError>)
    ensures
        match extracted(buffer@) {
            Ok(payload) => r is Ok && r.unwrap()@ == payload,
            Err(e) => r == Err::<Vec<u8>, CommandError>(e),
        },
{
    if message_count(buffer) > 1 {
        return Err(CommandError::MultipleMessages);
    }
    match Message::parse(buffer) {
        Ok(Message::ManufacturerSpecific { payload, .. }) => Ok(payload),
        Ok(Message::Universal { payload, .. }) => Ok(payload),
        Err(e) => Err(CommandError::Invalid(e)),
    }
}

/// The pieces that splitting `b` writes out: its messages where it holds
/// more than one, and nothing otherwise.
pub open spec fn parts_to_write(b: Seq<u8>) -> Seq<Seq<u8>> {
    if complete_count(b) > 1 {
        messages_in(b)
    } else {
        Seq::empty()
    }
}

/// The pieces of `buffer` that the split command writes to files of their
/// own.
pub fn split_parts(buffer: &[u8]) -> (parts: Vec<Vec<u8>>)
    ensures
        contents(parts@) == parts_to_write(buffer@),
{
    if message_count(buffer) > 1 {
        split_messages(buffer)
    } else {
        let parts: Vec<Vec<u8>> = Vec::new();
        assert(contents(parts@) =~= Seq::<Seq<u8>>::empty());
        parts
    }
}

/// The character of the decimal digit `d`.
pub open spec fn digit_char(d: nat) -> char {
    if d == 0 {
        '0'
    } else if d == 1 {
        '1'
    } else if d == 2 {
        '2'
    } else if d == 3 {
        '3'
    } else if d == 4 {
        '4'
    } else if d == 5 {
        '5'
    } else if d == 6 {
        '6'
    } else if d == 7 {
        '7'
    } else if d == 8 {
        '8'
    } else {
        '9'
    }
}

/// The decimal digits of `n`, without leading zeros.
pub open spec fn decimal_digits(n: nat) -> Seq<char>
    decreases n,
{
    if n < 10 {
        seq![digit_char(n)]
    } else {
        decimal_digits(n / 10).push(digit_char(n % 10))
    }
}

/// The decimal digits of `n`, with zeros in front of a number of fewer than
/// three digits to make it three.
pub open spec fn three_digits(n: nat) -> Seq<char> {
    if n < 10 {
        seq!['0', '0'] + decimal_digits(n)
    } else if n < 100 {
        seq!['0'] + decimal_digits(n)
    } else {
        decimal_digits(n)
    }
}

/// The name of the file that holds piece `number` of a capture whose own
/// file name has the given stem and extension.
pub open spec fn part_name_text(stem: Seq<char>, number: nat, extension: Seq<char>) -> Seq<char> {
    stem + seq!['-'] + three_digits(number) + seq!['.'] + extension
}

/// The text of one decimal digit.
fn digit_text(d: usize) -> (r: &'static str)
    requires
        d < 10,
    ensures
        r@ == seq![digit_char(d as nat)],
{
    proof {
        reveal_strlit("0");
        reveal_strlit("1");
        reveal_strlit("2");
        reveal_strlit("3");
        reveal_strlit("4");
        reveal_strlit("5");
        reveal_strlit("6");
        reveal_strlit("7");
        reveal_strlit("8");
        reveal_strlit("9");
    }
    let r = if d == 0 {
        "0"
    } else if d == 1 {
        "1"
    } else if d == 2 {
        "2"
    } else if d == 3 {
        "3"
    } else if d == 4 {
        "4"
    } else if d == 5 {
        "5"
    } else if d == 6 {
        "6"
    } else if d == 7 {
        "7"
    } else if d == 8 {
        "8"
    } else {
        "9"
    };
    assert(r@ =~= seq![digit_char(d as nat)]);
    r
}

/// Writes `n` in decimal.
pub fn decimal_text(n: usize) -> (r: String)
    ensures
        r@ == decimal_digits(n as nat),
    decreases n,
{
    if n < 10 {
        String::from_str(digit_text(n))
    } else {
        let head = decimal_text(n / 10);
        let r = head.concat(digit_text(n % 10));
        assert(r@ =~= decimal_digits(n as nat));
        r
    }
}

/// Names the file that holds piece `number` of a capture: the stem of the
/// capture's file name, a hyphen, the number in at least three digits, a dot
/// and the extension.
pub fn part_name(stem: &str, number: usize, extension: &str) -> (r: String)
    ensures
        r@ == part_name_text(stem@, number as nat, extension@),
{
    proof {
        reveal_strlit("-");
        reveal_strlit("-0");
        reveal_strlit("-00");
        reveal_strlit(".");
    }
    let dash = if number < 10 {
        "-00"
    } else if number < 100 {
        "-0"
    } else {
        "-"
    };
    let digits = decimal_text(number);
    let r = String::from_str(stem).concat(dash).concat(digits.as_str()).concat(".").concat(
        extension,
    );
    assert(r@ =~= part_name_text(stem@, number as nat, extension@));
    r
}

/// The sections that the analysis of `b` reports.
pub open spec fn analyzed(b: Seq<u8>) -> Result<Seq<SectionView>, CommandError> {
    if complete_count(b) > 1 {
        Err(CommandError::MultipleMessages)
    } else {
        match parse_spec(b) {
            Ok(m) => Ok(sections_of(m, b.len())),
            Err(e) => Err(CommandError::Invalid(e)),
        }
    }
}

/// Decomposes the single message in `buffer` into its sections.
pub fn analyze(buffer: &[u8]) -> (r: Result<Vec<MessageSection>, CommandError>)
    ensures
        match analyzed(buffer@) {
            Ok(sections) => r is Ok && section_views(r.unwrap()@) == sections,
            Err(e) => r == Err::<Vec<MessageSection>, CommandError>(e),
        },
{
    if message_count(buffer) > 1 {
        return Err(CommandError::MultipleMessages);
    }
    match Message::parse(buffer) {
        Ok(m) => Ok(message_sections(&m, buffer.len())),
        Err(e) => Err(CommandError::Invalid(e)),
    }
}

/// Whether `id` is taken for a manufacturer identifier written in
/// hexadecimal, rather than for the start of a name: it starts with a digit
/// from `0` to `7`.
pub open spec fn looks_like_hex_id(id: Seq<u8>) -> bool {
    id.len() > 0 && 0x30 <= id[0] <= 0x37
}

/// Whether `id` starts with two zero digits, which marks an extended
/// identifier.
pub open spec fn has_extension_marker(id: Seq<u8>) -> bool {
    id.len() >= 2 && id[0] == 0x30 && id[1] == 0x30
}

/// What is wrong with `id` as a manufacturer identifier in hexadecimal, if
/// anything: an extended identifier has six digits and a standard one two.
pub open spec fn hex_id_defect(id: Seq<u8>) -> Option<SysexError> {
    if has_extension_marker(id) && id.len() != 6 {
        Some(SysexError::InvalidManufacturerLength)
    } else if !has_extension_marker(id) && id.len() != 2 {
        Some(SysexError::InvalidManufacturerLength)
    } else if !is_hex_text(id) {
        Some(SysexError::DecodeError)
    } else {
        code_defect(hex_bytes(id))
    }
}

/// An identifier that starts with a digit from `0` to `7`, has the right
/// number of digits and decodes, always decodes into a valid identifier.
pub proof fn lemma_hex_id_is_valid(id: Seq<u8>)
    requires
        looks_like_hex_id(id),
        has_extension_marker(id) ==> id.len() == 6,
        !has_extension_marker(id) ==> id.len() == 2,
        is_hex_text(id),
    ensures
        valid_code(hex_bytes(id)),
{
    let code = hex_bytes(id);
    assert(digit_value(id[0]) is Some);
    assert(digit_value(id[1]) is Some);
    assert(code[0] == pair_value(id, 0));
}

/// Reads a manufacturer identifier written in hexadecimal.
pub fn manufacturer_from_hex(id: &[u8]) -> (r: Result<Manufacturer, SysexError>)
    ensures
        match hex_id_defect(id@) {
            Some(e) => r == Err::<Manufacturer, SysexError>(e),
            None => r is Ok && r.unwrap()@ == hex_bytes(id@) && r.unwrap().wf(),
        },
{
    let extended = id.len() >= 2 && id[0] == 0x30 && id[1] == 0x30;
    if extended && id.len() != 6 {
        return Err(SysexError::InvalidManufacturerLength);
    }
    if !extended && id.len() != 2 {
        return Err(SysexError::InvalidManufacturerLength);
    }
    match decode(id) {
        Ok(bytes) => Manufacturer::new(bytes),
        Err(e) => Err(e),
    }
}

/// The wire bytes of the manufacturer-specific message with identifier
/// `code` and the payload that `payload_hex` stands for, or a `DecodeError`
/// where `payload_hex` is no hexadecimal text.
pub open spec fn built(code: Seq<u8>, payload_hex: Seq<u8>) -> Result<Seq<u8>, SysexError> {
    if is_hex_text(payload_hex) {
        Ok(
            (MessageView::ManufacturerSpecific {
                manufacturer: code,
                payload: hex_bytes(payload_hex),
            }).wire(),
        )
    } else {
        Err(SysexError::DecodeError)
    }
}

/// Whether the bytes or the error in `r` are those in `expected`.
pub open spec fn yields(r: Result<Vec<u8>, SysexError>, expected: Result<Seq<u8>, SysexError>) -> bool {
    match expected {
        Ok(bytes) => r is Ok && r.unwrap()@ == bytes,
        Err(e) => r == Err::<Vec<u8>, SysexError>(e),
    }
}

/// Encodes the message of `manufacturer` whose payload is written in
/// hexadecimal as `payload_hex`.
pub fn build_message(manufacturer: Manufacturer, payload_hex: &[u8]) -> (r: Result<
    Vec<u8>,
    SysexError,
>)
    ensures
        yields(r, built(manufacturer@, payload_hex@)),
{
    match decode(payload_hex) {
        Ok(payload) => {
            let message = Message::ManufacturerSpecific { manufacturer, payload };
            Ok(message.to_bytes())
        },
        Err(e) => Err(e),
    }
}

/// Finds the manufacturer that `text` names: by its identifier in
/// hexadecimal where `text` starts with a digit from `0` to `7`, by the
/// start of its registered name otherwise. Empty text names none.
pub fn resolve_manufacturer(text: &str) -> (r: Result<Manufacturer, SysexError>)
    ensures
        r matches Ok(m) ==> m.wf(),
        text.spec_bytes().len() == 0 ==> r == Err::<Manufacturer, SysexError>(
            SysexError::InvalidManufacturerLength,
        ),
        looks_like_hex_id(text.spec_bytes()) ==> match hex_id_defect(text.spec_bytes()) {
            Some(e) => r == Err::<Manufacturer, SysexError>(e),
            None => r is Ok && r.unwrap()@ == hex_bytes(text.spec_bytes()),
        },
        text.spec_bytes().len() > 0 && !looks_like_hex_id(text.spec_bytes()) ==> {
            &&& r is Ok == name_is_registered(text@)
            &&& r matches Ok(m) ==> is_registered(m@) && name_starts_with(
                registered_name(m@),
                text@,
            )
            &&& r matches Err(e) ==> e == SysexError::ManufacturerNotFound
        },
{
    let id = text.as_bytes();
    if id.len() == 0 {
        return Err(SysexError::InvalidManufacturerLength);
    }
    if 0x30 <= id[0] && id[0] <= 0x37 {
        manufacturer_from_hex(id)
    } else {
        lookup_by_name(text)
    }
}

/// Makes the wire bytes of a manufacturer-specific message from command
/// line text: `manufacturer` is an identifier in hexadecimal or the start of
/// a registered name, `payload` is hexadecimal text. A manufacturer found by
/// name is one whose registered name starts with the text given.
///
/// The manufacturer is resolved first, so its error wins over that of the
/// payload.
pub fn make_message(manufacturer: &str, payload: &str) -> (r: Result<Vec<u8>, SysexError>)
    ensures
        manufacturer.spec_bytes().len() == 0 ==> r == Err::<Vec<u8>, SysexError>(
            SysexError::InvalidManufacturerLength,
        ),
        looks_like_hex_id(manufacturer.spec_bytes()) ==> match hex_id_defect(
            manufacturer.spec_bytes(),
        ) {
            Some(e) => r == Err::<Vec<u8>, SysexError>(e),
            None => yields(r, built(hex_bytes(manufacturer.spec_bytes()), payload.spec_bytes())),
        },
        manufacturer.spec_bytes().len() > 0 && !looks_like_hex_id(manufacturer.spec_bytes())
            ==> if name_is_registered(manufacturer@) {
            exists|code: Seq<u8>|
                valid_code(code) && is_registered(code) && name_starts_with(
                    registered_name(code),
                    manufacturer@,
                ) && yields(r, #[trigger] built(code, payload.spec_bytes()))
        } else {
            r == Err::<Vec<u8>, SysexError>(SysexError::ManufacturerNotFound)
        },
{
    match resolve_manufacturer(manufacturer) {
        Ok(m) => {
            let r = build_message(m, payload.as_bytes());
            assert(yields(r, built(m@, payload.spec_bytes())));
            r
        },
        Err(e) => Err(e),
    }
}

} // verus!
