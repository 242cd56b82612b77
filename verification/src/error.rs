//! The single error type of the library.
//!
//! Every fallible operation of the codec, the handshake, and the EPMD
//! request builders reports one of these values. `Io` failures carry a
//! category describing what kind of stream or framing fault occurred.

use vstd::prelude::*;

verus! {

/// The category of an `Error::Io` failure.
#[derive(Clone, Copy, Debug, PartialEq, Eq, Structural)]
pub enum IoKind {
    /// The input ended before a complete item could be read.
    UnexpectedEof,
    /// The input held a malformed tag, length, or field.
    InvalidData,
    /// A value cannot be represented on the wire.
    InvalidInput,
    /// The stream signalled end-of-stream (a zero-length port frame).
    Interrupted,
    /// The item is outside the supported subset of the protocol.
    Unsupported,
}

/// The library's error type.
#[derive(Clone, Copy, Debug, PartialEq, Eq, Structural)]
pub enum Error {
    /// A stream, framing, or representability failure.
    Io(IoKind),
    /// Bytes promised to be UTF-8 are not.
    Utf8,
    /// A value exceeded a protocol-defined size bound.
    Range,
    /// Reserved for adapter layers around the library.
    Custom,
}

} // verus!
