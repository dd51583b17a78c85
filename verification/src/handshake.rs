//! The handshake parser: the payload of the first packet on a connection
//! names, in strict order, a protocol version, a server address, a two-byte
//! port and a next-state code; only the code decides anything.
use vstd::prelude::*;

use crate::strcodec::{read_string, spec_read_string};
use crate::varint::{read_varint, spec_read_varint};
use crate::CodecError;

verus! {

/// Where a handshake sends the connection next: a status probe or a login
/// attempt.
#[derive(Clone, Copy, Debug, PartialEq, Eq, Structural)]
pub enum HandshakeTarget {
    Status,
    Login,
}

/// What a handshake payload decodes to: a protocol version varint (read,
/// never validated), a server address string (read, never validated), two
/// raw port bytes (read, discarded), then the next-state varint, where 1
/// maps to `Status`, 2 to `Login`, and anything else is
/// `UnknownHandshakeTarget`. Any earlier decode failure propagates.
pub open spec fn spec_read_handshake(s: Seq<u8>) -> Result<HandshakeTarget, CodecError> {
    match spec_read_varint(s) {
        Err(e) => Err(e),
        Ok((_version, c1)) => match spec_read_string(s.skip(c1)) {
            Err(e) => Err(e),
            Ok((_address, c2)) => {
                if s.len() < c1 + c2 + 2 {
                    Err(CodecError::Truncated)
                } else {
                    match spec_read_varint(s.skip(c1 + c2 + 2)) {
                        Err(e) => Err(e),
                        Ok((next_state, _c3)) => if next_state == 1 {
                            Ok(HandshakeTarget::Status)
                        } else if next_state == 2 {
                            Ok(HandshakeTarget::Login)
                        } else {
                            Err(CodecError::UnknownHandshakeTarget)
                        },
                    }
                }
            },
        },
    }
}

/// Parses a handshake payload, all or nothing: the decoded target, or the
/// first error any field forces.
pub fn read_handshake(payload: &[u8]) -> (r: Result<HandshakeTarget, CodecError>)
    ensures
        r == spec_read_handshake(payload@),
{
    let ghost s = payload@;
    let plen = payload.len();
    proof {
        assert(s =~= payload@.skip(0));
    }
    let (_version, c1) = match read_varint(payload, 0) {
        Ok(v) => v,
        Err(e) => {
            return Err(e);
        },
    };
    let (_address, c2) = match read_string(payload, c1) {
        Ok(v) => v,
        Err(e) => {
            proof {
                assert(s.skip(c1 as int) =~= payload@.skip(c1 as int));
            }
            return Err(e);
        },
    };
    proof {
        assert(s.skip(c1 as int) =~= payload@.skip(c1 as int));
    }
    if plen - (c1 + c2) < 2 {
        return Err(CodecError::Truncated);
    }
    let (next_state, _c3) = match read_varint(payload, c1 + c2 + 2) {
        Ok(v) => v,
        Err(e) => {
            proof {
                assert(s.skip(c1 + c2 + 2) =~= payload@.skip((c1 + c2 + 2) as int));
            }
            return Err(e);
        },
    };
    proof {
        assert(s.skip(c1 + c2 + 2) =~= payload@.skip((c1 + c2 + 2) as int));
        assert(((next_state as u32) == 1) <==> next_state == 1) by (bit_vector);
        assert(((next_state as u32) == 2) <==> next_state == 2) by (bit_vector);
    }
    if next_state == 1 {
        Ok(HandshakeTarget::Status)
    } else if next_state == 2 {
        Ok(HandshakeTarget::Login)
    } else {
        Err(CodecError::UnknownHandshakeTarget)
    }
}

} // verus!
