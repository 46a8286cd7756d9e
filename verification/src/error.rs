//! The ways in which decoding a reply can fail.

use vstd::prelude::*;

verus! {

/// Why a reply could not be decoded. Decoding is all or nothing: a reply that
/// gives one of these yields no record at all.
#[derive(Clone, Copy, Debug, PartialEq, Eq)]
pub enum DecodeError {
    /// The datagram does not start with the 32-bit value -1 that marks a
    /// single-packet reply; `header` is the value found.
    UnsupportedFormat { header: i32 },
    /// The reply's type byte is not `0x49`; `found` is that byte as a
    /// character.
    MalformedHeader { found: char },
    /// The server type byte is none of `d`, `l`, `p`.
    UnknownServerType { found: char },
    /// The environment byte is none of `l`, `w`, `m`.
    UnknownEnvironment { found: char },
    /// A field reaches past the end of the buffer.
    Truncated,
}

} // verus!
