//! Manufacturer identifiers: one byte for the standard range, three bytes
//! that start with zero for the extended range.

use vstd::prelude::*;
use crate::hexcode::{hex_encode, hex_text};
use crate::registry::{group_of, registered_name, registry_group, registry_name, ManufacturerGroup};
use crate::wire::SysexError;

verus! {

/// The reason why `code` is no manufacturer identifier, or `None` when it is
/// one.
///
/// An identifier is one byte in `0x01..=0x7F`, or three bytes of which the
/// first is `0x00`.
pub open spec fn code_defect(code: Seq<u8>) -> Option<SysexError> {
    if code.len() != 1 && code.len() != 3 {
        Some(SysexError::InvalidManufacturerLength)
    } else if code.len() == 3 && code[0] != 0x00 {
        Some(SysexError::InvalidManufacturerPrefix)
    } else if code.len() == 1 && (code[0] == 0x00 || code[0] > 0x7F) {
        Some(SysexError::InvalidManufacturerPrefix)
    } else {
        None
    }
}

/// Whether `code` is a well-formed manufacturer identifier.
pub open spec fn valid_code(code: Seq<u8>) -> bool {
    code_defect(code) is None
}

/// Identity of the originator of a message.
#[derive(Clone, Copy, Debug, PartialEq, Eq)]
pub enum Manufacturer {
    /// A single-byte identifier.
    Standard(u8),
    /// A three-byte identifier; the first byte is the extension marker.
    Extended([u8; 3]),
}

impl View for Manufacturer {
    type V = Seq<u8>;

    /// The identifier bytes as they appear on the wire.
    open spec fn view(&self) -> Seq<u8> {
        match *self {
            Manufacturer::Standard(b) => seq![b],
            Manufacturer::Extended(bs) => bs@,
        }
    }
}

impl Manufacturer {
    /// The invariant of a constructed manufacturer: its bytes form a valid
    /// identifier.
    pub open spec fn wf(&self) -> bool {
        valid_code(self@)
    }

    /// Validates `bytes` as a manufacturer identifier.
    pub fn new(bytes: Vec<u8>) -> (r: Result<Manufacturer, SysexError>)
        ensures
            match code_defect(bytes@) {
                None => r is Ok && r.unwrap()@ == bytes@ && r.unwrap().wf(),
                Some(e) => r == Err::<Manufacturer, SysexError>(e),
            },
    {
        let n = bytes.len();
        if n != 1 && n != 3 {
            return Err(SysexError::InvalidManufacturerLength);
        }
        let first = bytes[0];
        if n == 3 {
            if first != 0x00 {
                return Err(SysexError::InvalidManufacturerPrefix);
            }
            let m = Manufacturer::Extended([first, bytes[1], bytes[2]]);
            assert(m@ =~= bytes@);
            Ok(m)
        } else {
            if first == 0x00 || first > 0x7F {
                return Err(SysexError::InvalidManufacturerPrefix);
            }
            let m = Manufacturer::Standard(first);
            assert(m@ =~= bytes@);
            Ok(m)
        }
    }

    /// The display name of this manufacturer; `UNKNOWN_NAME` when the registry
    /// has none.
    pub fn name(&self) -> (r: String)
        ensures
            r@ == registered_name(self@),
    {
        registry_name(self)
    }

    /// The regional group of this manufacturer.
    pub fn group(&self) -> (r: ManufacturerGroup)
        ensures
            r == group_of(self@),
    {
        registry_group(self)
    }

    /// The identifier written in hexadecimal, two digits per byte.
    pub fn hex_identifier(&self) -> (r: String)
        ensures
            r@ == hex_text(self@),
    {
        let bytes = self.to_bytes();
        hex_encode(bytes.as_slice())
    }

    /// The identifier bytes, exactly as they were given to `new`.
    pub fn to_bytes(&self) -> (r: Vec<u8>)
        ensures
            r@ == self@,
    {
        match self {
            Manufacturer::Standard(b) => {
                let r = vec![*b];
                assert(r@ =~= self@);
                r
            },
            Manufacturer::Extended(bs) => {
                let r = vec![bs[0], bs[1], bs[2]];
                assert(r@ =~= self@);
                r
            },
        }
    }
}

} // verus!
