//! The variable-length integer codec: a 32-bit value carried in one to five
//! bytes, each byte holding seven value bits (least-significant group first)
//! and a high continuation bit that is clear only on the last byte.
use vstd::prelude::*;

use crate::CodecError;

verus! {

/// The canonical encoding of a 32-bit pattern: seven-bit groups emitted
/// least-significant first, the continuation bit set on every byte but the
/// last; the last byte is the one whose remaining value fits in seven bits.
pub open spec fn spec_write_varint(n: u32) -> Seq<u8>
    decreases n,
        via spec_write_varint_decreases
{
    if n < 0x80 {
        seq![n as u8]
    } else {
        seq![((n & 0x7f) as u8) | 0x80] + spec_write_varint(n >> 7)
    }
}

#[via_fn]
proof fn spec_write_varint_decreases(n: u32) {
    assert(n >= 0x80 ==> n >> 7 < n) by (bit_vector);
}

/// How many bytes the canonical encoding of `n` takes.
pub open spec fn spec_varint_len(n: u32) -> int {
    if n < 0x80 {
        1
    } else if n < 0x4000 {
        2
    } else if n < 0x200000 {
        3
    } else if n < 0x10000000 {
        4
    } else {
        5
    }
}

/// The encoding is one to five bytes long, exactly as many as the value's
/// seven-bit groups require; a sixth byte is never emitted.
pub proof fn lemma_write_varint_len(n: u32)
    ensures
        spec_write_varint(n).len() == spec_varint_len(n),
        1 <= spec_write_varint(n).len() <= 5,
    decreases n,
{
    if n < 0x80 {
    } else {
        assert(n >> 7 < n) by (bit_vector)
            requires n >= 0x80,
        ;
        lemma_write_varint_len(n >> 7);
        assert((n >> 7 < 0x80) <==> n < 0x4000) by (bit_vector);
        assert((n >> 7 < 0x4000) <==> n < 0x200000) by (bit_vector);
        assert((n >> 7 < 0x200000) <==> n < 0x10000000) by (bit_vector);
        assert(n >> 7 < 0x10000000) by (bit_vector);
    }
}

/// What decoding from the front of `s` yields once `k` seven-bit groups have
/// already been folded into `acc`: the value and the total group count, or
/// `Truncated` when the bytes run out first, or `Overflow` when a sixth
/// group would be needed.
pub open spec fn spec_read_varint_from(s: Seq<u8>, k: int, acc: u32) -> Result<(u32, int), CodecError>
    decreases 5 - k,
{
    if k >= 5 {
        Err(CodecError::Overflow)
    } else if s.len() == 0 {
        Err(CodecError::Truncated)
    } else {
        let b = s[0];
        let acc2 = acc | (((b & 0x7f) as u32) << ((7 * k) as u32));
        if b & 0x80 == 0 {
            Ok((acc2, k + 1))
        } else {
            spec_read_varint_from(s.skip(1), k + 1, acc2)
        }
    }
}

/// What decoding a varint from the front of `s` yields: the value as a
/// 32-bit pattern and the number of bytes consumed, or the error the stream
/// forces.
pub open spec fn spec_read_varint(s: Seq<u8>) -> Result<(u32, int), CodecError> {
    spec_read_varint_from(s, 0, 0)
}

/// Decodes a varint from `data` starting at `pos`. Returns the value and the
/// number of bytes consumed; fails `Truncated` when the data ends before a
/// byte with a clear continuation bit, and `Overflow` when a sixth
/// seven-bit group would be required, checked before that group is read.
#[verifier::loop_isolation(false)]
pub fn read_varint(data: &[u8], pos: usize) -> (r: Result<(i32, usize), CodecError>)
    requires
        pos <= data@.len(),
    ensures
        (match r {
            Ok(vc) => {
                &&& spec_read_varint(data@.skip(pos as int)) == Ok::<(u32, int), CodecError>((vc.0 as u32, vc.1 as int))
                &&& 1 <= vc.1 <= 5
                &&& pos + vc.1 <= data@.len()
            },
            Err(e) => spec_read_varint(data@.skip(pos as int)) == Err::<(u32, int), CodecError>(e),
        }),
{
    let mut value: u32 = 0;
    let mut bytes_read: usize = 0;
    loop
        invariant
            pos <= data@.len(),
            0 <= bytes_read <= 4,
            pos + bytes_read <= data@.len(),
            spec_read_varint(data@.skip(pos as int)) == spec_read_varint_from(
                data@.skip(pos + bytes_read),
                bytes_read as int,
                value,
            ),
        decreases 5 - bytes_read,
    {
        let ghost s_k = data@.skip(pos + bytes_read);
        let ghost k = bytes_read as int;
        let ghost acc = value;
        if data.len() - pos == bytes_read {
            assert(s_k.len() == 0);
            return Err(CodecError::Truncated);
        }
        let b = *vstd::slice::slice_index_get(data, pos + bytes_read);
        assert(s_k[0] == b);
        value = value | (((b & 0x7f) as u32) << ((7 * bytes_read) as u32));
        proof {
            assert(((7 * k) as u32) == ((7 * bytes_read) as u32));
        }
        bytes_read = bytes_read + 1;
        if b & 0x80 == 0 {
            proof {
                assert(spec_read_varint_from(s_k, k, acc) == Ok::<(u32, int), CodecError>((value, k + 1)));
                assert(((value as i32) as u32) == value) by (bit_vector);
            }
            return Ok((value as i32, bytes_read));
        }
        if bytes_read == 5 {
            assert(spec_read_varint_from(s_k, k, acc) == spec_read_varint_from(s_k.skip(1), 5, value));
            return Err(CodecError::Overflow);
        }
        proof {
            assert(s_k.skip(1) =~= data@.skip(pos + bytes_read));
        }
    }
}

/// Encodes `num` as a varint over its 32-bit pattern: one to five bytes, the
/// continuation bit set on every byte but the last.
#[verifier::loop_isolation(false)]
pub fn write_varint(num: i32) -> (r: Vec<u8>)
    ensures
        r@ == spec_write_varint(num as u32),
        1 <= r@.len() <= 5,
{
    let full: u32 = num as u32;
    proof {
        lemma_write_varint_len(full);
    }
    let mut bytes: Vec<u8> = Vec::new();
    let mut n: u32 = full;
    loop
        invariant
            spec_write_varint(full) == bytes@ + spec_write_varint(n),
        decreases n,
    {
        if n < 0x80 {
            let ghost pre = bytes@;
            bytes.push(n as u8);
            proof {
                assert(spec_write_varint(n) == seq![n as u8]);
                assert(bytes@ =~= pre + spec_write_varint(n));
            }
            return bytes;
        }
        let ghost pre = bytes@;
        bytes.push(((n & 0x7f) as u8) | 0x80);
        proof {
            assert(spec_write_varint(n) == seq![((n & 0x7f) as u8) | 0x80] + spec_write_varint(n >> 7));
            assert(bytes@ + spec_write_varint(n >> 7) =~= pre + spec_write_varint(n));
            assert(n >> 7 < n) by (bit_vector)
                requires n >= 0x80,
            ;
        }
        n = n >> 7;
    }
}

/// Law: a stream that ends before any byte with a clear continuation bit,
/// and too short to overflow, decodes to `Truncated`.
pub proof fn lemma_read_varint_truncated(s: Seq<u8>)
    requires
        s.len() < 5,
        forall|i: int| 0 <= i < s.len() ==> (s[i] & 0x80) != 0,
    ensures
        spec_read_varint(s) == Err::<(u32, int), CodecError>(CodecError::Truncated),
{
    lemma_read_varint_from_truncated(s, 0, 0);
}

proof fn lemma_read_varint_from_truncated(s: Seq<u8>, k: int, acc: u32)
    requires
        0 <= k,
        s.len() + k < 5,
        forall|i: int| 0 <= i < s.len() ==> (s[i] & 0x80) != 0,
    ensures
        spec_read_varint_from(s, k, acc) == Err::<(u32, int), CodecError>(CodecError::Truncated),
    decreases s.len(),
{
    if s.len() == 0 {
    } else {
        let b = s[0];
        let acc2 = acc | (((b & 0x7f) as u32) << ((7 * k) as u32));
        lemma_read_varint_from_truncated(s.skip(1), k + 1, acc2);
    }
}

/// Law: a stream whose first five bytes all carry the continuation bit
/// decodes to `Overflow`, however it goes on.
pub proof fn lemma_read_varint_overflow(s: Seq<u8>)
    requires
        s.len() >= 5,
        forall|i: int| 0 <= i < 5 ==> (s[i] & 0x80) != 0,
    ensures
        spec_read_varint(s) == Err::<(u32, int), CodecError>(CodecError::Overflow),
{
    lemma_read_varint_from_overflow(s, 0, 0);
}

proof fn lemma_read_varint_from_overflow(s: Seq<u8>, k: int, acc: u32)
    requires
        0 <= k <= 5,
        s.len() + k >= 5,
        forall|i: int| 0 <= i < 5 - k ==> (s[i] & 0x80) != 0,
    ensures
        spec_read_varint_from(s, k, acc) == Err::<(u32, int), CodecError>(CodecError::Overflow),
    decreases 5 - k,
{
    if k >= 5 {
    } else {
        let b = s[0];
        let acc2 = acc | (((b & 0x7f) as u32) << ((7 * k) as u32));
        assert(forall|i: int| 0 <= i < 5 - (k + 1) ==> (s.skip(1)[i] & 0x80) != 0);
        lemma_read_varint_from_overflow(s.skip(1), k + 1, acc2);
    }
}

proof fn lemma_round_trip_from(n: u32, k: int, acc: u32, t: Seq<u8>)
    requires
        0 <= k,
        k + spec_varint_len(n) <= 5,
        acc < (1u32 << ((7 * k) as u32)),
    ensures
        spec_read_varint_from(spec_write_varint(n) + t, k, acc) == Ok::<(u32, int), CodecError>(
            (acc | (n << ((7 * k) as u32)), k + spec_varint_len(n)),
        ),
    decreases n,
{
    let s = spec_write_varint(n) + t;
    let j: u32 = (7 * k) as u32;
    if n < 0x80 {
        let b: u8 = n as u8;
        assert(s[0] == b);
        assert((b & 0x80) == 0 && (((b & 0x7f) as u32) << j) == (n << j)) by (bit_vector)
            requires n < 0x80 && b == (n as u8),
        ;
    } else {
        let b: u8 = ((n & 0x7f) as u8) | 0x80;
        assert(spec_write_varint(n) == seq![b] + spec_write_varint(n >> 7));
        assert(s[0] == b);
        assert(s.skip(1) =~= spec_write_varint(n >> 7) + t);
        let acc2 = acc | (((b & 0x7f) as u32) << j);
        assert((b & 0x80) != 0) by (bit_vector)
            requires b == (((n & 0x7f) as u8) | 0x80),
        ;
        assert((n >> 7 < 0x80) <==> n < 0x4000) by (bit_vector);
        assert((n >> 7 < 0x4000) <==> n < 0x200000) by (bit_vector);
        assert((n >> 7 < 0x200000) <==> n < 0x10000000) by (bit_vector);
        assert(n >> 7 < 0x10000000) by (bit_vector);
        assert(spec_varint_len(n >> 7) == spec_varint_len(n) - 1);
        assert(j <= 21);
        assert(((7 * (k + 1)) as u32) == j + 7);
        assert(acc2 < (1u32 << (j + 7) as u32)) by (bit_vector)
            requires
                acc < (1u32 << j),
                j <= 21,
                acc2 == (acc | (((b & 0x7f) as u32) << j)),
        ;
        assert(n >> 7 < n) by (bit_vector)
            requires n >= 0x80,
        ;
        lemma_round_trip_from(n >> 7, k + 1, acc2, t);
        assert((acc2 | ((n >> 7) << ((j + 7) as u32))) == (acc | (n << j))) by (bit_vector)
            requires
                acc < (1u32 << j),
                j <= 21,
                acc2 == (acc | (((b & 0x7f) as u32) << j)),
                b == (((n & 0x7f) as u8) | 0x80),
        ;
    }
}

/// Law: round trip. Decoding an encoded value, with anything at all behind
/// it in the stream, yields that value back and consumes exactly the
/// encoding's bytes.
pub proof fn lemma_varint_round_trip_prefix(n: u32, t: Seq<u8>)
    ensures
        spec_read_varint(spec_write_varint(n) + t) == Ok::<(u32, int), CodecError>(
            (n, spec_write_varint(n).len() as int),
        ),
{
    lemma_write_varint_len(n);
    assert(0u32 < (1u32 << 0)) by (bit_vector);
    lemma_round_trip_from(n, 0, 0, t);
    assert((0u32 | (n << 0)) == n) by (bit_vector);
}

/// Law: round trip on exactly the encoding, with nothing behind it.
pub proof fn lemma_varint_round_trip(n: u32)
    ensures
        spec_read_varint(spec_write_varint(n)) == Ok::<(u32, int), CodecError>(
            (n, spec_write_varint(n).len() as int),
        ),
{
    lemma_varint_round_trip_prefix(n, Seq::<u8>::empty());
    assert(spec_write_varint(n) + Seq::<u8>::empty() =~= spec_write_varint(n));
}

} // verus!
