//! Assembling a message from the text tokens of a line-oriented receive
//! source. Each line names the kind of event, the numeric base of what
//! follows, and then the bytes of the event, one token each.

use vstd::prelude::*;
use vstd::string::*;
use crate::wire::{INITIATOR, TERMINATOR};

verus! {

/// The numeric base in which byte tokens are written.
#[derive(Clone, Copy, Debug, PartialEq, Eq, Structural)]
pub enum Base {
    Hex,
    Decimal,
}

impl Base {
    /// The radix of this base.
    pub open spec fn radix_value(self) -> u32 {
        match self {
            Base::Hex => 16,
            Base::Decimal => 10,
        }
    }

    /// The radix of this base.
    pub fn radix(self) -> (r: u32)
        ensures
            r == self.radix_value(),
    {
        match self {
            Base::Hex => 16,
            Base::Decimal => 10,
        }
    }

    /// The base that `word` selects: hexadecimal for `hex`, decimal for
    /// anything else.
    pub open spec fn selected_by(word: Seq<char>) -> Base {
        if word == "hex"@ {
            Base::Hex
        } else {
            Base::Decimal
        }
    }

    /// The base that `word` selects: hexadecimal for `hex`, decimal for
    /// anything else.
    pub fn from_word(word: &str) -> (r: Base)
        ensures
            r == Base::selected_by(word@),
    {
        if same_text(word, "hex") {
            Base::Hex
        } else {
            Base::Decimal
        }
    }
}

/// The word that opens a line which carries a System Exclusive message.
pub const SYSEX_WORD: &'static str = "system-exclusive";

/// Whether two pieces of text are the same.
pub fn same_text(a: &str, b: &str) -> (r: bool)
    ensures
        r == (a@ == b@),
{
    String::from_str(a) == String::from_str(b)
}

/// The value of `c` as a digit: `0` to `9` for the numerals, and ten to
/// thirty-five for the letters `a` to `z` in either case.
pub open spec fn digit_of(c: char) -> Option<int> {
    let v = c as int;
    if 0x30 <= v <= 0x39 {
        Some(v - 0x30)
    } else if 0x61 <= v <= 0x7A {
        Some(v - 0x61 + 10)
    } else if 0x41 <= v <= 0x5A {
        Some(v - 0x41 + 10)
    } else {
        None
    }
}

/// Whether `c` is a digit of the given radix.
pub open spec fn is_digit(c: char, radix: u32) -> bool {
    digit_of(c) matches Some(d) && d < radix
}

/// The number that `digits` write in the given radix, the most significant
/// digit first.
pub open spec fn number_of(digits: Seq<char>, radix: u32) -> int
    decreases digits.len(),
{
    if digits.len() == 0 {
        0
    } else {
        number_of(digits.drop_last(), radix) * radix + digit_of(digits.last()).unwrap()
    }
}

/// `token` without the plus sign that may stand in front of its digits.
pub open spec fn after_sign(token: Seq<char>) -> Seq<char> {
    if token.len() > 0 && token[0] == '+' {
        token.subrange(1, token.len() as int)
    } else {
        token
    }
}

/// The byte that `token` denotes in the given radix, or `None` where it
/// denotes none. A token denotes a byte when it is made of an optional plus
/// sign and at least one digit of the radix, and nothing else, and the
/// number that the digits write is at most 255.
pub open spec fn byte_value(token: Seq<char>, radix: u32) -> Option<u8> {
    let digits = after_sign(token);
    if digits.len() > 0 && (forall|i: int| 0 <= i < digits.len() ==> is_digit(digits[i], radix))
        && number_of(digits, radix) <= 255 {
        Some(number_of(digits, radix) as u8)
    } else {
        None
    }
}

/// Calls `u8::from_str_radix`.
///
/// Trusted: parsing succeeds exactly on an optional plus sign followed by
/// one or more digits of the radix, in either letter case, that write a
/// number of at most 255, and then yields that number.
#[verifier::external_body]
pub(crate) fn parse_byte(token: &str, radix: u32) -> (r: Option<u8>)
    requires
        2 <= radix <= 36,
    ensures
        r == byte_value(token@, radix),
{
    match u8::from_str_radix(token, radix) {
        Ok(b) => Some(b),
        Err(_) => None,
    }
}

/// The bytes among `outcomes`, in order; the failures are left out.
pub open spec fn kept_bytes(outcomes: Seq<Option<u8>>) -> Seq<u8>
    decreases outcomes.len(),
{
    if outcomes.len() == 0 {
        Seq::empty()
    } else {
        match outcomes.last() {
            Some(b) => kept_bytes(outcomes.drop_last()).push(b),
            None => kept_bytes(outcomes.drop_last()),
        }
    }
}

/// The outcome of reading each of `tokens` as a byte in the given radix.
pub open spec fn token_outcomes(tokens: Seq<Seq<char>>, radix: u32) -> Seq<Option<u8>> {
    Seq::new(tokens.len(), |i: int| byte_value(tokens[i], radix))
}

/// `payload` between an initiator and a terminator.
pub open spec fn framed(payload: Seq<u8>) -> Seq<u8> {
    seq![INITIATOR] + payload + seq![TERMINATOR]
}

/// The text of each token of a list.
pub open spec fn texts(tokens: Seq<&str>) -> Seq<Seq<char>> {
    Seq::new(tokens.len(), |i: int| tokens[i]@)
}

/// Keeps the bytes among `outcomes`, in order, and leaves the failures out.
pub fn keep_bytes(outcomes: &[Option<u8>]) -> (r: Vec<u8>)
    ensures
        r@ == kept_bytes(outcomes@),
{
    let mut data: Vec<u8> = Vec::new();
    let mut i: usize = 0;
    while i < outcomes.len()
        invariant
            i <= outcomes@.len(),
            data@ == kept_bytes(outcomes@.take(i as int)),
        decreases outcomes@.len() - i,
    {
        assert(outcomes@.take(i + 1).drop_last() =~= outcomes@.take(i as int));
        match outcomes[i] {
            Some(b) => {
                data.push(b);
            },
            None => {},
        }
        i = i + 1;
    }
    assert(outcomes@.take(i as int) =~= outcomes@);
    data
}

/// Puts `payload` between an initiator and a terminator.
pub fn frame_payload(payload: &[u8]) -> (r: Vec<u8>)
    ensures
        r@ == framed(payload@),
{
    let mut out: Vec<u8> = Vec::new();
    out.push(INITIATOR);
    let mut i: usize = 0;
    while i < payload.len()
        invariant
            i <= payload@.len(),
            out@ == seq![INITIATOR] + payload@.take(i as int),
        decreases payload@.len() - i,
    {
        out.push(payload[i]);
        i = i + 1;
        assert(out@ =~= seq![INITIATOR] + payload@.take(i as int));
    }
    out.push(TERMINATOR);
    assert(payload@.take(i as int) =~= payload@);
    assert(out@ =~= framed(payload@));
    out
}

/// Reads each of `words`, from index `start` on, as a byte in the given
/// radix, and returns the outcomes in order.
fn read_tokens(words: &[&str], start: usize, radix: u32) -> (outcomes: Vec<Option<u8>>)
    requires
        start <= words@.len(),
        2 <= radix <= 36,
    ensures
        outcomes@ == token_outcomes(
            texts(words@).subrange(start as int, words@.len() as int),
            radix,
        ),
{
    let ghost rest = texts(words@).subrange(start as int, words@.len() as int);
    let mut outcomes: Vec<Option<u8>> = Vec::new();
    let mut i: usize = start;
    while i < words.len()
        invariant
            start <= i <= words@.len(),
            2 <= radix <= 36,
            rest == texts(words@).subrange(start as int, words@.len() as int),
            outcomes@ == token_outcomes(rest, radix).take(i - start),
        decreases words@.len() - i,
    {
        let outcome = parse_byte(words[i], radix);
        assert(rest[i - start] == words@[i as int]@);
        outcomes.push(outcome);
        i = i + 1;
        assert(outcomes@ =~= token_outcomes(rest, radix).take(i - start));
    }
    assert(outcomes@ =~= token_outcomes(rest, radix));
    outcomes
}

/// Reads each token as a byte in the given base. A token that denotes no
/// byte is skipped; the others yield their bytes, in order.
pub fn decode_tokens(base: Base, tokens: &[&str]) -> (r: Vec<u8>)
    ensures
        r@ == kept_bytes(token_outcomes(texts(tokens@), base.radix_value())),
{
    let outcomes = read_tokens(tokens, 0, base.radix());
    assert(texts(tokens@).subrange(0, tokens@.len() as int) =~= texts(tokens@));
    keep_bytes(outcomes.as_slice())
}

/// Builds the wire bytes of the message that `tokens` spell out in the given
/// base: the decoded bytes between an initiator and a terminator.
pub fn assemble(base: Base, tokens: &[&str]) -> (r: Vec<u8>)
    ensures
        r@ == framed(kept_bytes(token_outcomes(texts(tokens@), base.radix_value()))),
{
    let data = decode_tokens(base, tokens);
    frame_payload(data.as_slice())
}

/// What a line of `words` yields: a message where the line has at least
/// three words of which the first selects System Exclusive handling, and
/// nothing otherwise. The second word selects the base, and the words after
/// it are the byte tokens.
pub open spec fn line_message(words: Seq<Seq<char>>) -> Option<Seq<u8>> {
    if words.len() < 3 || words[0] != SYSEX_WORD@ {
        None
    } else {
        Some(
            framed(
                kept_bytes(
                    token_outcomes(
                        words.subrange(2, words.len() as int),
                        Base::selected_by(words[1]).radix_value(),
                    ),
                ),
            ),
        )
    }
}

/// Handles one line of the receive source, given as its words.
pub fn receive_line(words: &[&str]) -> (r: Option<Vec<u8>>)
    ensures
        match line_message(texts(words@)) {
            Some(bytes) => r is Some && r.unwrap()@ == bytes,
            None => r is None,
        },
{
    if words.len() < 3 {
        return None;
    }
    if !same_text(words[0], SYSEX_WORD) {
        return None;
    }
    let base = Base::from_word(words[1]);
    let outcomes = read_tokens(words, 2, base.radix());
    let data = keep_bytes(outcomes.as_slice());
    Some(frame_payload(data.as_slice()))
}

} // verus!
