//! Framing, parsing and construction of MIDI System Exclusive messages.
//!
//! A System Exclusive message travels on the wire as an initiator byte, a
//! header that names either a manufacturer or a universal message class, a
//! payload, and a terminator byte. This crate classifies such buffers, splits
//! captures that hold several of them, and encodes typed messages back into
//! wire bytes. Every executable function carries a contract over a
//! mathematical model of the bytes involved.

pub mod wire;
pub mod registry;
pub mod manufacturer;
pub mod message;
pub mod splitter;
pub mod sections;
pub mod hexcode;
pub mod receive;
pub mod commands;

pub use manufacturer::Manufacturer;
pub use message::{Message, UniversalKind};
pub use registry::{lookup_by_code, lookup_by_name, Entry, ManufacturerGroup};
pub use sections::{message_sections, MessageSection, SectionKind};
pub use splitter::{message_count, split_messages};
pub use wire::SysexError;
