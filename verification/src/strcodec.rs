//! The length-prefixed string codec: a varint byte length followed by that
//! many raw bytes. Decoding widens each raw byte directly to the character
//! of the same code point; multi-byte text sequences are never reassembled.
use vstd::prelude::*;

use crate::varint::{read_varint, spec_read_varint, spec_write_varint, write_varint};
use crate::CodecError;

verus! {

/// The characters a raw byte run decodes to: each byte widened directly to
/// the code point of the same value.
pub open spec fn spec_widen_bytes(b: Seq<u8>) -> Seq<char> {
    b.map_values(|x: u8| x as char)
}

/// What decoding a length-prefixed string from the front of `s` yields: the
/// text and the total bytes consumed, length prefix included. A length whose
/// 32-bit pattern is negative as a signed value reads as zero characters.
pub open spec fn spec_read_string(s: Seq<u8>) -> Result<(Seq<char>, int), CodecError> {
    match spec_read_varint(s) {
        Err(e) => Err(e),
        Ok((len, c)) => {
            let n = len as i32;
            if n <= 0 {
                Ok((Seq::<char>::empty(), c))
            } else if s.len() - c < n {
                Err(CodecError::Truncated)
            } else {
                Ok((spec_widen_bytes(s.subrange(c, c + n)), c + n))
            }
        },
    }
}

/// Relies on std's `String::push`: appends the given character to the end of
/// the string.
#[verifier::external_body]
fn push_char(s: &mut String, c: char)
    ensures
        final(s)@ == old(s)@.push(c),
{
    s.push(c);
}

/// Decodes a length-prefixed string from `data` starting at `pos`: a varint
/// byte count, then exactly that many raw bytes, each widened to one
/// character. Returns the text and the total bytes consumed; fails
/// `Truncated` when fewer bytes than the count follow.
#[verifier::loop_isolation(false)]
pub fn read_string(data: &[u8], pos: usize) -> (r: Result<(String, usize), CodecError>)
    requires
        pos <= data@.len(),
    ensures
        (match r {
            Ok(sc) => {
                &&& spec_read_string(data@.skip(pos as int)) == Ok::<(Seq<char>, int), CodecError>((sc.0@, sc.1 as int))
                &&& pos + sc.1 <= data@.len()
            },
            Err(e) => spec_read_string(data@.skip(pos as int)) == Err::<(Seq<char>, int), CodecError>(e),
        }),
{
    let ghost s = data@.skip(pos as int);
    let dlen = data.len();
    let (len_val, len_bytes) = match read_varint(data, pos) {
        Ok(v) => v,
        Err(e) => {
            return Err(e);
        },
    };
    proof {
        assert(((len_val as u32) as i32) == len_val) by (bit_vector);
    }
    if len_val <= 0 {
        return Ok((String::new(), len_bytes));
    }
    let n = len_val as usize;
    let start = pos + len_bytes;
    if dlen - start < n {
        return Err(CodecError::Truncated);
    }
    let mut out = String::new();
    let mut i: usize = 0;
    while i < n
        invariant
            i <= n,
            out@ =~= spec_widen_bytes(data@.subrange(start as int, start + i)),
        decreases n - i,
    {
        let b = *vstd::slice::slice_index_get(data, start + i);
        push_char(&mut out, b as char);
        proof {
            assert(data@.subrange(start as int, start + i + 1)
                =~= data@.subrange(start as int, start + i).push(b));
        }
        i = i + 1;
    }
    proof {
        assert(s.subrange(len_bytes as int, len_bytes + n) =~= data@.subrange(start as int, start + n));
    }
    Ok((out, len_bytes + n))
}

/// The wire form of a text whose raw bytes are `b`: a varint carrying the
/// byte count, then the bytes themselves.
pub open spec fn spec_prefix_bytes(b: Seq<u8>) -> Seq<u8> {
    spec_write_varint(b.len() as u32) + b
}

/// Encodes `string` as the protocol sends text: its byte length as a varint,
/// then its raw bytes.
pub fn prefix_str_len(string: &str) -> (r: Vec<u8>)
    requires
        vstd::utf8::encode_utf8(string@).len() <= 0x7fffffff,
    ensures
        r@ == spec_prefix_bytes(vstd::utf8::encode_utf8(string@)),
{
    let bs = string.as_bytes();
    let len = bs.len();
    let mut r = write_varint(len as i32);
    proof {
        assert(((len as i32) as u32) == len as u32) by (bit_vector)
            requires len <= 0x7fffffff,
        ;
    }
    r.extend_from_slice(bs);
    proof {
        assert(r@ =~= spec_prefix_bytes(vstd::utf8::encode_utf8(string@)));
    }
    r
}

} // verus!
