//! A labelled decomposition of one message into byte ranges, for reports.

use vstd::prelude::*;
use vstd::string::*;
use crate::message::{parse_spec, Message, MessageView};

verus! {

/// What a section of a message holds.
#[derive(Clone, Copy, Debug, PartialEq, Eq, Structural)]
pub enum SectionKind {
    Initiator,
    ManufacturerId,
    UniversalId,
    Payload,
    Terminator,
}

impl SectionKind {
    /// The description of this kind of section, as a report shows it.
    pub open spec fn label_text(self) -> Seq<char> {
        match self {
            SectionKind::Initiator => "Message initiator"@,
            SectionKind::ManufacturerId => "Manufacturer identifier"@,
            SectionKind::UniversalId => "Universal message identifier"@,
            SectionKind::Payload => "Message payload"@,
            SectionKind::Terminator => "Message terminator"@,
        }
    }

    /// The description of this kind of section, as a report shows it.
    pub fn label(&self) -> (r: &'static str)
        ensures
            r@ == self.label_text(),
    {
        match self {
            SectionKind::Initiator => "Message initiator",
            SectionKind::ManufacturerId => "Manufacturer identifier",
            SectionKind::UniversalId => "Universal message identifier",
            SectionKind::Payload => "Message payload",
            SectionKind::Terminator => "Message terminator",
        }
    }
}

/// One labelled byte range of a message.
#[derive(Clone, Debug, PartialEq, Eq)]
pub struct MessageSection {
    pub kind: SectionKind,
    pub name: String,
    /// Offset of the first byte, counted from the start of the message.
    pub offset: usize,
    /// Number of bytes in the section.
    pub length: usize,
}

/// The mathematical content of a `MessageSection`.
pub struct SectionView {
    pub kind: SectionKind,
    pub name: Seq<char>,
    pub offset: nat,
    pub length: nat,
}

impl View for MessageSection {
    type V = SectionView;

    open spec fn view(&self) -> SectionView {
        SectionView {
            kind: self.kind,
            name: self.name@,
            offset: self.offset as nat,
            length: self.length as nat,
        }
    }
}

impl MessageSection {
    /// The word that follows the length in a report: singular for one byte.
    pub fn unit(&self) -> (r: &'static str)
        ensures
            self.length == 1 ==> r@ == "byte"@,
            self.length != 1 ==> r@ == "bytes"@,
    {
        if self.length == 1 {
            "byte"
        } else {
            "bytes"
        }
    }
}

/// The section that names the originator of `m`: the manufacturer
/// identifier in its full length, or the first three bytes of a universal
/// header.
pub open spec fn identifier_section(m: MessageView) -> SectionView {
    match m {
        MessageView::ManufacturerSpecific { manufacturer, .. } => SectionView {
            kind: SectionKind::ManufacturerId,
            name: "Manufacturer"@,
            offset: 1,
            length: manufacturer.len(),
        },
        MessageView::Universal { .. } => SectionView {
            kind: SectionKind::UniversalId,
            name: "Universal"@,
            offset: 1,
            length: 3,
        },
    }
}

/// The sections of message `m`, read from a buffer of `buffer_len` bytes:
/// the initiator, the identifier, the payload right behind the identifier,
/// and the terminator in the last byte of the buffer.
pub open spec fn sections_of(m: MessageView, buffer_len: nat) -> Seq<SectionView> {
    let id = identifier_section(m);
    seq![
        SectionView {
            kind: SectionKind::Initiator,
            name: "System Exclusive Initiator"@,
            offset: 0,
            length: 1,
        },
        id,
        SectionView {
            kind: SectionKind::Payload,
            name: "Message Payload"@,
            offset: id.offset + id.length,
            length: m.payload().len(),
        },
        SectionView {
            kind: SectionKind::Terminator,
            name: "System Exclusive Terminator"@,
            offset: (buffer_len - 1) as nat,
            length: 1,
        },
    ]
}

/// The sum of the lengths of `sections`.
pub open spec fn total_length(sections: Seq<SectionView>) -> nat
    decreases sections.len(),
{
    if sections.len() == 0 {
        0
    } else {
        total_length(sections.drop_last()) + sections.last().length
    }
}

/// Whether `sections` tile a buffer of `buffer_len` bytes: the first starts
/// at offset zero, each next one starts where the one before it ends, and
/// the last one ends where the buffer ends.
pub open spec fn tiles(sections: Seq<SectionView>, buffer_len: nat) -> bool {
    &&& sections.len() > 0
    &&& sections[0].offset == 0
    &&& forall|i: int|
        0 <= i < sections.len() - 1 ==> (#[trigger] sections[i + 1]).offset == sections[i].offset
            + sections[i].length
    &&& sections.last().offset + sections.last().length == buffer_len
}

/// The views of a list of sections.
pub open spec fn section_views(sections: Seq<MessageSection>) -> Seq<SectionView> {
    sections.map_values(|s: MessageSection| s@)
}

/// Decomposes `message`, which was parsed from a buffer of `buffer_len`
/// bytes, into its sections.
pub fn message_sections(message: &Message, buffer_len: usize) -> (r: Vec<MessageSection>)
    requires
        buffer_len >= 1,
    ensures
        section_views(r@) == sections_of(message@, buffer_len as nat),
{
    let mut out: Vec<MessageSection> = Vec::new();
    out.push(
        MessageSection {
            kind: SectionKind::Initiator,
            name: String::from_str("System Exclusive Initiator"),
            offset: 0,
            length: 1,
        },
    );
    let id_length: usize = match message {
        Message::ManufacturerSpecific { manufacturer, .. } => {
            let id_length: usize = manufacturer.to_bytes().len();
            out.push(
                MessageSection {
                    kind: SectionKind::ManufacturerId,
                    name: String::from_str("Manufacturer"),
                    offset: 1,
                    length: id_length,
                },
            );
            id_length
        },
        Message::Universal { .. } => {
            out.push(
                MessageSection {
                    kind: SectionKind::UniversalId,
                    name: String::from_str("Universal"),
                    offset: 1,
                    length: 3,
                },
            );
            3
        },
    };
    out.push(
        MessageSection {
            kind: SectionKind::Payload,
            name: String::from_str("Message Payload"),
            offset: 1 + id_length,
            length: message.payload().len(),
        },
    );
    out.push(
        MessageSection {
            kind: SectionKind::Terminator,
            name: String::from_str("System Exclusive Terminator"),
            offset: buffer_len - 1,
            length: 1,
        },
    );
    assert(section_views(out@) =~= sections_of(message@, buffer_len as nat));
    out
}

/// The sections that can be told of a buffer of `buffer_len` bytes without
/// parsing it: the initiator in its first byte and the terminator in its
/// last. An empty buffer has none.
pub open spec fn framing_of(buffer_len: nat) -> Seq<SectionView> {
    if buffer_len == 0 {
        Seq::empty()
    } else {
        seq![
            SectionView {
                kind: SectionKind::Initiator,
                name: "System Exclusive Initiator"@,
                offset: 0,
                length: 1,
            },
            SectionView {
                kind: SectionKind::Terminator,
                name: "System Exclusive Terminator"@,
                offset: (buffer_len - 1) as nat,
                length: 1,
            },
        ]
    }
}

/// The framing sections of a buffer of `buffer_len` bytes, for a report on a
/// buffer that does not parse.
pub fn framing_sections(buffer_len: usize) -> (r: Vec<MessageSection>)
    ensures
        section_views(r@) == framing_of(buffer_len as nat),
{
    let mut out: Vec<MessageSection> = Vec::new();
    if buffer_len > 0 {
        out.push(
            MessageSection {
                kind: SectionKind::Initiator,
                name: String::from_str("System Exclusive Initiator"),
                offset: 0,
                length: 1,
            },
        );
        out.push(
            MessageSection {
                kind: SectionKind::Terminator,
                name: String::from_str("System Exclusive Terminator"),
                offset: buffer_len - 1,
                length: 1,
            },
        );
    }
    assert(section_views(out@) =~= framing_of(buffer_len as nat));
    out
}

/// The total length of four sections is the sum of their four lengths.
proof fn lemma_total_of_four(s: Seq<SectionView>)
    requires
        s.len() == 4,
    ensures
        total_length(s) == s[0].length + s[1].length + s[2].length + s[3].length,
{
    let s3 = s.drop_last();
    let s2 = s3.drop_last();
    let s1 = s2.drop_last();
    assert(total_length(s1.drop_last()) == 0);
    assert(total_length(s1) == s[0].length);
    assert(total_length(s2) == s[0].length + s[1].length);
    assert(total_length(s3) == s[0].length + s[1].length + s[2].length);
}

/// The sections of a manufacturer-specific message cover the buffer that it
/// was parsed from: they tile it without gap or overlap, and their lengths
/// add up to the length of the buffer.
pub proof fn lemma_sections_cover(b: Seq<u8>)
    requires
        parse_spec(b) is Ok,
        parse_spec(b).unwrap() is ManufacturerSpecific,
    ensures
        tiles(sections_of(parse_spec(b).unwrap(), b.len()), b.len()),
        total_length(sections_of(parse_spec(b).unwrap(), b.len())) == b.len(),
{
    let m = parse_spec(b).unwrap();
    let s = sections_of(m, b.len());
    lemma_total_of_four(s);
    assert forall|i: int| 0 <= i < s.len() - 1 implies (#[trigger] s[i + 1]).offset
        == s[i].offset + s[i].length by {
        if i == 0 {
        } else if i == 1 {
        } else {
            assert(i == 2);
        }
    }
}

/// The sections of a universal message name three of its four header bytes,
/// so their lengths add up to one byte less than the buffer that it was
/// parsed from.
pub proof fn lemma_universal_sections_fall_short(b: Seq<u8>)
    requires
        parse_spec(b) is Ok,
        parse_spec(b).unwrap() is Universal,
    ensures
        total_length(sections_of(parse_spec(b).unwrap(), b.len())) + 1 == b.len(),
{
    lemma_total_of_four(sections_of(parse_spec(b).unwrap(), b.len()));
}

} // verus!
