//! Wire-level constants and the error taxonomy shared by all modules.

use vstd::prelude::*;

verus! {

/// First byte of every System Exclusive message.
pub const INITIATOR: u8 = 0xF0;

/// Last byte of every System Exclusive message.
pub const TERMINATOR: u8 = 0xF7;

/// Manufacturer identifier set aside for development and non-commercial use.
pub const DEVELOPMENT: u8 = 0x7D;

/// Header byte of a universal non-real-time message.
pub const NON_REAL_TIME: u8 = 0x7E;

/// Header byte of a universal real-time message.
pub const REAL_TIME: u8 = 0x7F;

/// Everything that can go wrong while parsing or constructing messages.
#[derive(Clone, Copy, Debug, PartialEq, Eq, Structural)]
pub enum SysexError {
    /// The buffer is shorter than two bytes, or does not start with the
    /// initiator, or does not end with the terminator.
    MalformedFraming,
    /// The buffer ends before the header has been read in full.
    TruncatedHeader,
    /// A manufacturer identifier is neither one nor three bytes long.
    InvalidManufacturerLength,
    /// The leading byte of a manufacturer identifier is not allowed for an
    /// identifier of its length.
    InvalidManufacturerPrefix,
    /// No registered manufacturer name starts with the text asked for.
    ManufacturerNotFound,
    /// A piece of text does not decode into bytes.
    DecodeError,
}

/// Copies the bytes of `data` from index `from` up to, not including, `to`.
pub fn copy_range(data: &[u8], from: usize, to: usize) -> (r: Vec<u8>)
    requires
        from <= to <= data@.len(),
    ensures
        r@ == data@.subrange(from as int, to as int),
{
    let mut out: Vec<u8> = Vec::new();
    let mut i: usize = from;
    while i < to
        invariant
            from <= i <= to <= data@.len(),
            out@ == data@.subrange(from as int, i as int),
        decreases to - i,
    {
        out.push(data[i]);
        i = i + 1;
        assert(out@ =~= data@.subrange(from as int, i as int));
    }
    out
}

} // verus!
