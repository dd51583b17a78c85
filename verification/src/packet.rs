//! The packet framer: on the wire a packet is a varint total length, a
//! varint packet id, and a payload whose length is the total less the id's
//! own encoded width.
use vstd::prelude::*;

use crate::varint::{read_varint, spec_read_varint, spec_write_varint, write_varint};
use crate::CodecError;

verus! {

/// The wire form of a packet: the combined length of the encoded id and the
/// payload as a varint, then the encoded id, then the payload.
pub open spec fn spec_write_packet(packet_id: i32, payload: Seq<u8>) -> Seq<u8> {
    let id = spec_write_varint(packet_id as u32);
    spec_write_varint((id.len() + payload.len()) as u32) + id + payload
}

/// What reading one packet from the front of `s` yields: the packet id, the
/// payload and the bytes consumed. The payload length is the decoded total
/// less the id's own width; a negative one is a `ProtocolError`, and a
/// stream holding fewer payload bytes than that is `Truncated`.
pub open spec fn spec_read_packet(s: Seq<u8>) -> Result<(i32, Seq<u8>, int), CodecError> {
    match spec_read_varint(s) {
        Err(e) => Err(e),
        Ok((total, c1)) => match spec_read_varint(s.skip(c1)) {
            Err(e) => Err(e),
            Ok((id, c2)) => {
                let payload_len = (total as i32) - c2;
                if payload_len < 0 {
                    Err(CodecError::ProtocolError)
                } else if s.len() < c1 + c2 + payload_len {
                    Err(CodecError::Truncated)
                } else {
                    Ok((id as i32, s.subrange(c1 + c2, c1 + c2 + payload_len), c1 + c2 + payload_len))
                }
            },
        },
    }
}

/// Reads one whole packet from `data` starting at `pos`: its id, its payload
/// and the bytes consumed.
pub fn read_packet(data: &[u8], pos: usize) -> (r: Result<(i32, Vec<u8>, usize), CodecError>)
    requires
        pos <= data@.len(),
    ensures
        (match r {
            Ok(p) => {
                &&& spec_read_packet(data@.skip(pos as int)) == Ok::<(i32, Seq<u8>, int), CodecError>((p.0, p.1@, p.2 as int))
                &&& pos + p.2 <= data@.len()
            },
            Err(e) => spec_read_packet(data@.skip(pos as int)) == Err::<(i32, Seq<u8>, int), CodecError>(e),
        }),
{
    let ghost s = data@.skip(pos as int);
    let dlen = data.len();
    let (total, c1) = match read_varint(data, pos) {
        Ok(v) => v,
        Err(e) => {
            return Err(e);
        },
    };
    let (id, c2) = match read_varint(data, pos + c1) {
        Ok(v) => v,
        Err(e) => {
            proof {
                assert(s.skip(c1 as int) =~= data@.skip(pos + c1));
            }
            return Err(e);
        },
    };
    proof {
        assert(s.skip(c1 as int) =~= data@.skip(pos + c1));
        assert(((total as u32) as i32) == total) by (bit_vector);
        assert(((id as u32) as i32) == id) by (bit_vector);
    }
    if total < (c2 as i32) {
        return Err(CodecError::ProtocolError);
    }
    let payload_len = (total - (c2 as i32)) as usize;
    let start = pos + c1 + c2;
    if dlen - start < payload_len {
        return Err(CodecError::Truncated);
    }
    let payload = vstd::slice::slice_to_vec(vstd::slice::slice_subrange(data, start, start + payload_len));
    proof {
        assert(s.subrange(c1 + c2, c1 + c2 + (payload_len as int))
            =~= data@.subrange(start as int, (start + payload_len) as int));
    }
    Ok((id, payload, c1 + c2 + payload_len))
}

/// Writes one whole packet: the id encoded as a varint, the combined length
/// of encoded id and payload in front, the payload behind.
pub fn write_packet(packet_id: i32, payload: &[u8]) -> (r: Vec<u8>)
    requires
        payload@.len() + 5 <= 0x7fffffff,
    ensures
        r@ == spec_write_packet(packet_id, payload@),
{
    let id_bytes = write_varint(packet_id);
    let total = id_bytes.len() + payload.len();
    let mut r = write_varint(total as i32);
    proof {
        assert(((total as i32) as u32) == total as u32) by (bit_vector)
            requires total <= 0x7fffffff,
        ;
    }
    r.extend_from_slice(id_bytes.as_slice());
    r.extend_from_slice(payload);
    proof {
        assert(r@ =~= spec_write_packet(packet_id, payload@));
    }
    r
}

/// Law: packet round trip. Reading a written packet back yields the same id
/// and the same payload, consuming exactly the written bytes.
pub proof fn lemma_packet_round_trip(packet_id: i32, payload: Seq<u8>)
    requires
        payload.len() + 5 <= 0x7fffffff,
    ensures
        spec_read_packet(spec_write_packet(packet_id, payload)) == Ok::<(i32, Seq<u8>, int), CodecError>(
            (packet_id, payload, spec_write_packet(packet_id, payload).len() as int),
        ),
{
    let idb = spec_write_varint(packet_id as u32);
    crate::varint::lemma_write_varint_len(packet_id as u32);
    let total: u32 = (idb.len() + payload.len()) as u32;
    let s = spec_write_packet(packet_id, payload);
    assert(s =~= spec_write_varint(total) + (idb + payload));
    crate::varint::lemma_varint_round_trip_prefix(total, idb + payload);
    let c1 = spec_write_varint(total).len() as int;
    assert(spec_read_varint(s) == Ok::<(u32, int), CodecError>((total, c1)));
    assert(s.skip(c1) =~= idb + payload);
    crate::varint::lemma_varint_round_trip_prefix(packet_id as u32, payload);
    let c2 = idb.len() as int;
    assert(spec_read_varint(s.skip(c1)) == Ok::<(u32, int), CodecError>((packet_id as u32, c2)));
    assert(((packet_id as u32) as i32) == packet_id) by (bit_vector);
    assert((total as i32) == idb.len() + payload.len());
    assert(s.subrange(c1 + c2, c1 + c2 + payload.len()) =~= payload);
}

} // verus!
