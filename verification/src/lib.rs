//! A decoy listener's protocol core: the variable-length integer codec, the
//! length-prefixed string codec, the packet framer, the handshake parser and
//! the per-connection state machine that turns wire bytes into one loggable
//! event.
use vstd::prelude::*;

pub mod connection;
pub mod handshake;
pub mod identity;
pub mod packet;
pub mod strcodec;
pub mod varint;

verus! {

/// The errors a codec, framer or parser can report. Every one of them aborts
/// the connection being handled; none of them crashes the process.
#[derive(Clone, Copy, Debug, PartialEq, Eq, Structural)]
pub enum CodecError {
    /// The stream ended in the middle of a field.
    Truncated,
    /// A variable-length integer would not fit in 32 bits.
    Overflow,
    /// A malformed packet length.
    ProtocolError,
    /// A handshake next-state code that maps to no target.
    UnknownHandshakeTarget,
}

} // verus!
