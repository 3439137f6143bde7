//! Typed messages, the parser that classifies a framed buffer, and the
//! encoder that turns a message back into wire bytes.

use vstd::prelude::*;
use crate::manufacturer::{code_defect, valid_code, Manufacturer};
use crate::wire::{copy_range, SysexError, INITIATOR, NON_REAL_TIME, REAL_TIME, TERMINATOR};

verus! {

/// The two classes of universal messages.
#[derive(Clone, Copy, Debug, PartialEq, Eq, Structural)]
pub enum UniversalKind {
    NonRealTime,
    RealTime,
}

impl UniversalKind {
    /// The header byte that announces this class on the wire.
    pub open spec fn wire_byte(self) -> u8 {
        match self {
            UniversalKind::NonRealTime => NON_REAL_TIME,
            UniversalKind::RealTime => REAL_TIME,
        }
    }

    /// The header byte that announces this class on the wire.
    pub fn to_byte(self) -> (b: u8)
        ensures
            b == self.wire_byte(),
    {
        match self {
            UniversalKind::NonRealTime => NON_REAL_TIME,
            UniversalKind::RealTime => REAL_TIME,
        }
    }

    /// The name of this class, as a report shows it.
    pub open spec fn label_text(self) -> Seq<char> {
        match self {
            UniversalKind::NonRealTime => "Non-Real-time"@,
            UniversalKind::RealTime => "Real-time"@,
        }
    }

    /// The name of this class, as a report shows it.
    pub fn label(&self) -> (r: &'static str)
        ensures
            r@ == self.label_text(),
    {
        match self {
            UniversalKind::NonRealTime => "Non-Real-time",
            UniversalKind::RealTime => "Real-time",
        }
    }

    /// The class announced by header byte `b`, if `b` announces one.
    pub fn from_byte(b: u8) -> (r: Option<UniversalKind>)
        ensures
            b == NON_REAL_TIME ==> r == Some(UniversalKind::NonRealTime),
            b == REAL_TIME ==> r == Some(UniversalKind::RealTime),
            b != NON_REAL_TIME && b != REAL_TIME ==> r is None,
    {
        if b == NON_REAL_TIME {
            Some(UniversalKind::NonRealTime)
        } else if b == REAL_TIME {
            Some(UniversalKind::RealTime)
        } else {
            None
        }
    }
}

/// A System Exclusive message without its framing bytes.
#[derive(Clone, Debug, PartialEq, Eq)]
pub enum Message {
    /// A message owned by one manufacturer.
    ManufacturerSpecific { manufacturer: Manufacturer, payload: Vec<u8> },
    /// A message defined by the MIDI standard itself.
    Universal { kind: UniversalKind, target: u8, sub_id1: u8, sub_id2: u8, payload: Vec<u8> },
}

/// The mathematical content of a `Message`.
pub enum MessageView {
    ManufacturerSpecific { manufacturer: Seq<u8>, payload: Seq<u8> },
    Universal { kind: UniversalKind, target: u8, sub_id1: u8, sub_id2: u8, payload: Seq<u8> },
}

impl MessageView {
    /// A message is well formed when its manufacturer identifier is valid.
    pub open spec fn wf(self) -> bool {
        match self {
            MessageView::ManufacturerSpecific { manufacturer, .. } => valid_code(manufacturer),
            MessageView::Universal { .. } => true,
        }
    }

    /// The bytes between the initiator and the payload.
    pub open spec fn header(self) -> Seq<u8> {
        match self {
            MessageView::ManufacturerSpecific { manufacturer, .. } => manufacturer,
            MessageView::Universal { kind, target, sub_id1, sub_id2, .. } => seq![
                kind.wire_byte(),
                target,
                sub_id1,
                sub_id2,
            ],
        }
    }

    /// The bytes between the header and the terminator.
    pub open spec fn payload(self) -> Seq<u8> {
        match self {
            MessageView::ManufacturerSpecific { payload, .. } => payload,
            MessageView::Universal { payload, .. } => payload,
        }
    }

    /// The message as it travels on the wire: initiator, header, payload,
    /// terminator.
    pub open spec fn wire(self) -> Seq<u8> {
        seq![INITIATOR] + self.header() + self.payload() + seq![TERMINATOR]
    }

    /// Whether the header of this message is read back as the header it was
    /// written from.
    ///
    /// The one-byte manufacturer identifiers `0x7E` and `0x7F` are valid
    /// identifiers, but on the wire the same bytes announce a universal
    /// message, so a manufacturer-specific message that carries one of them
    /// does not survive a round trip.
    pub open spec fn unambiguous(self) -> bool {
        match self {
            MessageView::ManufacturerSpecific { manufacturer, .. } => manufacturer.len() > 0
                && manufacturer[0] != NON_REAL_TIME && manufacturer[0] != REAL_TIME,
            MessageView::Universal { .. } => true,
        }
    }
}

impl View for Message {
    type V = MessageView;

    open spec fn view(&self) -> MessageView {
        match *self {
            Message::ManufacturerSpecific { manufacturer, payload } => {
                MessageView::ManufacturerSpecific { manufacturer: manufacturer@, payload: payload@ }
            },
            Message::Universal { kind, target, sub_id1, sub_id2, payload } => {
                MessageView::Universal { kind, target, sub_id1, sub_id2, payload: payload@ }
            },
        }
    }
}

/// What parsing the framed buffer `b` yields.
///
/// The buffer must hold at least the two framing bytes, in their places.
/// The byte after the initiator then selects the header: `0x7E` and `0x7F`
/// open a four-byte universal header, `0x00` opens a three-byte manufacturer
/// identifier, and any other byte is a one-byte manufacturer identifier,
/// which must pass validation. Whatever lies between the header and the
/// terminator is the payload.
pub open spec fn parse_spec(b: Seq<u8>) -> Result<MessageView, SysexError> {
    if b.len() < 2 || b[0] != INITIATOR || b[b.len() - 1] != TERMINATOR {
        Err(SysexError::MalformedFraming)
    } else {
        let body = b.subrange(1, b.len() - 1);
        if body.len() == 0 {
            Err(SysexError::TruncatedHeader)
        } else if body[0] == NON_REAL_TIME || body[0] == REAL_TIME {
            if body.len() < 4 {
                Err(SysexError::TruncatedHeader)
            } else {
                Ok(
                    MessageView::Universal {
                        kind: if body[0] == NON_REAL_TIME {
                            UniversalKind::NonRealTime
                        } else {
                            UniversalKind::RealTime
                        },
                        target: body[1],
                        sub_id1: body[2],
                        sub_id2: body[3],
                        payload: body.subrange(4, body.len() as int),
                    },
                )
            }
        } else if body[0] == 0x00 {
            if body.len() < 3 {
                Err(SysexError::TruncatedHeader)
            } else {
                Ok(
                    MessageView::ManufacturerSpecific {
                        manufacturer: body.subrange(0, 3),
                        payload: body.subrange(3, body.len() as int),
                    },
                )
            }
        } else {
            match code_defect(body.subrange(0, 1)) {
                Some(e) => Err(e),
                None => Ok(
                    MessageView::ManufacturerSpecific {
                        manufacturer: body.subrange(0, 1),
                        payload: body.subrange(1, body.len() as int),
                    },
                ),
            }
        }
    }
}

impl Message {
    /// The payload of the message, whichever its variant.
    pub fn payload(&self) -> (p: &Vec<u8>)
        ensures
            p@ == self@.payload(),
    {
        match self {
            Message::ManufacturerSpecific { payload, .. } => payload,
            Message::Universal { payload, .. } => payload,
        }
    }

    /// Classifies one framed message.
    ///
    /// `buffer` holds the bytes of a single message, framing bytes included.
    pub fn parse(buffer: &[u8]) -> (r: Result<Message, SysexError>)
        ensures
            match parse_spec(buffer@) {
                Ok(v) => r is Ok && r.unwrap()@ == v && v.wf(),
                Err(e) => r == Err::<Message, SysexError>(e),
            },
    {
        let n = buffer.len();
        if n < 2 || buffer[0] != INITIATOR || buffer[n - 1] != TERMINATOR {
            return Err(SysexError::MalformedFraming);
        }
        let end = n - 1;
        let ghost body = buffer@.subrange(1, end as int);
        if end == 1 {
            return Err(SysexError::TruncatedHeader);
        }
        let first = buffer[1];
        assert(body[0] == first);
        if first == NON_REAL_TIME || first == REAL_TIME {
            if end < 5 {
                return Err(SysexError::TruncatedHeader);
            }
            let kind = if first == NON_REAL_TIME {
                UniversalKind::NonRealTime
            } else {
                UniversalKind::RealTime
            };
            let payload = copy_range(buffer, 5, end);
            assert(payload@ =~= body.subrange(4, body.len() as int));
            assert(body[1] == buffer@[2] && body[2] == buffer@[3] && body[3] == buffer@[4]);
            Ok(
                Message::Universal {
                    kind,
                    target: buffer[2],
                    sub_id1: buffer[3],
                    sub_id2: buffer[4],
                    payload,
                },
            )
        } else if first == 0x00 {
            if end < 4 {
                return Err(SysexError::TruncatedHeader);
            }
            let manufacturer = Manufacturer::Extended([first, buffer[2], buffer[3]]);
            let payload = copy_range(buffer, 4, end);
            assert(manufacturer@ =~= body.subrange(0, 3));
            assert(payload@ =~= body.subrange(3, body.len() as int));
            Ok(Message::ManufacturerSpecific { manufacturer, payload })
        } else {
            assert(body.subrange(0, 1) =~= seq![first]);
            if first > 0x7F {
                return Err(SysexError::InvalidManufacturerPrefix);
            }
            let manufacturer = Manufacturer::Standard(first);
            let payload = copy_range(buffer, 2, end);
            assert(payload@ =~= body.subrange(1, body.len() as int));
            Ok(Message::ManufacturerSpecific { manufacturer, payload })
        }
    }

    /// Encodes the message for the wire: initiator, header, payload,
    /// terminator.
    pub fn to_bytes(&self) -> (r: Vec<u8>)
        ensures
            r@ == self@.wire(),
    {
        let mut out: Vec<u8> = Vec::new();
        out.push(INITIATOR);
        let payload = match self {
            Message::ManufacturerSpecific { manufacturer, payload } => {
                match manufacturer {
                    Manufacturer::Standard(b) => {
                        out.push(*b);
                    },
                    Manufacturer::Extended(bs) => {
                        out.push(bs[0]);
                        out.push(bs[1]);
                        out.push(bs[2]);
                    },
                }
                payload
            },
            Message::Universal { kind, target, sub_id1, sub_id2, payload } => {
                out.push(kind.to_byte());
                out.push(*target);
                out.push(*sub_id1);
                out.push(*sub_id2);
                payload
            },
        };
        assert(out@ =~= seq![INITIATOR] + self@.header());
        let ghost head = out@;
        let mut i: usize = 0;
        while i < payload.len()
            invariant
                i <= payload@.len(),
                out@ == head + payload@.subrange(0, i as int),
            decreases payload@.len() - i,
        {
            out.push(payload[i]);
            i = i + 1;
            assert(out@ =~= head + payload@.subrange(0, i as int));
        }
        out.push(TERMINATOR);
        assert(out@ =~= self@.wire());
        out
    }
}

/// Parsing undoes encoding: a well-formed message whose header is
/// unambiguous is read back from its wire bytes unchanged.
pub proof fn lemma_parse_inverts_encoding(m: MessageView)
    requires
        m.wf(),
        m.unambiguous(),
    ensures
        parse_spec(m.wire()) == Ok::<MessageView, SysexError>(m),
{
    let b = m.wire();
    let body = b.subrange(1, b.len() - 1);
    assert(body =~= m.header() + m.payload());
    match m {
        MessageView::ManufacturerSpecific { manufacturer, payload } => {
            if manufacturer.len() == 3 {
                assert(body.subrange(0, 3) =~= manufacturer);
                assert(body.subrange(3, body.len() as int) =~= payload);
            } else {
                assert(body.subrange(0, 1) =~= manufacturer);
                assert(body.subrange(1, body.len() as int) =~= payload);
            }
        },
        MessageView::Universal { kind, target, sub_id1, sub_id2, payload } => {
            assert(body.subrange(4, body.len() as int) =~= payload);
        },
    }
}

/// Encoding undoes parsing: every buffer that the parser accepts is exactly
/// the encoding of the message it was parsed into, and that message is well
/// formed.
pub proof fn lemma_encoding_inverts_parse(b: Seq<u8>)
    requires
        parse_spec(b) is Ok,
    ensures
        parse_spec(b).unwrap().wire() == b,
        parse_spec(b).unwrap().wf(),
        parse_spec(b).unwrap().unambiguous(),
{
    let m = parse_spec(b).unwrap();
    let body = b.subrange(1, b.len() - 1);
    assert(body =~= m.header() + m.payload());
    assert(b =~= seq![INITIATOR] + body + seq![TERMINATOR]);
    assert(m.wire() =~= b);
}

} // verus!
