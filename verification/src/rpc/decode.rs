//! Decoding of fixed-width big-endian integers from byte slices, and the
//! `Decode` capability: a type that can decode itself from the front of a
//! buffer and report how many bytes it consumed.

use vstd::prelude::*;

use crate::types::Offset;

verus! {

/// Failure of a fixed-width or self-describing decode: the supplied buffer
/// cannot hold a value of the requested type.
#[derive(Debug)]
pub enum DecodeError {
    InvalidBuffer(String),
}

/// The unsigned 16-bit value stored big-endian in a 2-byte sequence.
pub open spec fn be16_val(s: Seq<u8>) -> u16
    recommends
        s.len() == 2,
{
    ((s[0] as u16) << 8) | (s[1] as u16)
}

/// The unsigned 32-bit value stored big-endian in a 4-byte sequence.
pub open spec fn be32_val(s: Seq<u8>) -> u32
    recommends
        s.len() == 4,
{
    ((s[0] as u32) << 24) | ((s[1] as u32) << 16) | ((s[2] as u32) << 8) | (s[3] as u32)
}

/// The unsigned 64-bit value stored big-endian in an 8-byte sequence.
pub open spec fn be64_val(s: Seq<u8>) -> u64
    recommends
        s.len() == 8,
{
    ((s[0] as u64) << 56) | ((s[1] as u64) << 48) | ((s[2] as u64) << 40) | ((s[3] as u64) << 32)
        | ((s[4] as u64) << 24) | ((s[5] as u64) << 16) | ((s[6] as u64) << 8) | (s[7] as u64)
}

/// Reads the signed 16-bit big-endian integer stored in `b[i..i + 2]`.
pub fn i16_from_be_at(b: &[u8], i: usize) -> (r: i16)
    requires
        i + 2 <= b@.len(),
    ensures
        r == be16_val(b@.subrange(i as int, i as int + 2)) as i16,
{
    let v: u16 = ((b[i] as u16) << 8u16) | (b[i + 1] as u16);
    proof {
        let s = b@.subrange(i as int, i as int + 2);
        assert(s[0] == b@[i as int] && s[1] == b@[i as int + 1]);
    }
    v as i16
}

/// Reads the signed 32-bit big-endian integer stored in `b[i..i + 4]`.
pub fn i32_from_be_at(b: &[u8], i: usize) -> (r: i32)
    requires
        i + 4 <= b@.len(),
    ensures
        r == be32_val(b@.subrange(i as int, i as int + 4)) as i32,
{
    let v: u32 = ((b[i] as u32) << 24u32) | ((b[i + 1] as u32) << 16u32)
        | ((b[i + 2] as u32) << 8u32) | (b[i + 3] as u32);
    proof {
        let s = b@.subrange(i as int, i as int + 4);
        assert(s[0] == b@[i as int] && s[1] == b@[i as int + 1] && s[2] == b@[i as int + 2]
            && s[3] == b@[i as int + 3]);
    }
    v as i32
}

/// Reads the unsigned 64-bit big-endian integer stored in `b[i..i + 8]`.
pub fn u64_from_be_at(b: &[u8], i: usize) -> (r: u64)
    requires
        i + 8 <= b@.len(),
    ensures
        r == be64_val(b@.subrange(i as int, i as int + 8)),
{
    let v: u64 = ((b[i] as u64) << 56u64) | ((b[i + 1] as u64) << 48u64)
        | ((b[i + 2] as u64) << 40u64) | ((b[i + 3] as u64) << 32u64)
        | ((b[i + 4] as u64) << 24u64) | ((b[i + 5] as u64) << 16u64)
        | ((b[i + 6] as u64) << 8u64) | (b[i + 7] as u64);
    proof {
        let s = b@.subrange(i as int, i as int + 8);
        assert(forall|k: int| 0 <= k < 8 ==> s[k] == b@[i as int + k]);
    }
    v
}

/// A type that can decode one value of `T` from the front of a byte buffer.
///
/// `sdecode_ok` says on which buffers decoding succeeds; `sdecoded` relates a
/// buffer to the value decoded from it.  A decoded value reports through
/// `Offset` how many bytes of the buffer it consumed, and that count is the
/// same for every value decoded from the same buffer, so a container can
/// advance its cursor past one element and decode the next.
pub trait Decode<T: Offset> {
    /// True on the buffers from which a `T` can be decoded.
    spec fn sdecode_ok(data: Seq<u8>) -> bool;

    /// True when `v` is the value decoded from the front of `data`.
    spec fn sdecoded(data: Seq<u8>, v: T) -> bool;

    /// The number of bytes that decoding the front of `data` consumes, when
    /// decoding succeeds.
    spec fn sconsumed(data: Seq<u8>) -> int;

    /// Decodes one `T` from the front of `buf`.
    fn decode(buf: &[u8]) -> (r: Result<T, DecodeError>)
        ensures
            r is Ok <==> Self::sdecode_ok(buf@),
            (match r {
                Ok(v) => Self::sdecoded(buf@, v) && v.soffset() == Self::sconsumed(buf@)
                    && 1 <= Self::sconsumed(buf@) <= buf@.len(),
                Err(_) => true,
            }),
    ;
}

impl Decode<i32> for [u8] {
    open spec fn sdecode_ok(data: Seq<u8>) -> bool {
        data.len() == 4
    }

    open spec fn sdecoded(data: Seq<u8>, v: i32) -> bool {
        data.len() == 4 && v == be32_val(data) as i32
    }

    open spec fn sconsumed(data: Seq<u8>) -> int {
        4
    }

    fn decode(buf: &[u8]) -> (r: Result<i32, DecodeError>) {
        if buf.len() != 4 {
            return Err(DecodeError::InvalidBuffer(
                "Buffer must be exactly 4 bytes for i32".to_owned(),
            ));
        }
        proof {
            assert(buf@.subrange(0, 4) =~= buf@);
        }
        Ok(i32_from_be_at(buf, 0))
    }
}

impl Decode<u64> for [u8] {
    open spec fn sdecode_ok(data: Seq<u8>) -> bool {
        data.len() == 8
    }

    open spec fn sdecoded(data: Seq<u8>, v: u64) -> bool {
        data.len() == 8 && v == be64_val(data)
    }

    open spec fn sconsumed(data: Seq<u8>) -> int {
        8
    }

    fn decode(buf: &[u8]) -> (r: Result<u64, DecodeError>) {
        if buf.len() != 8 {
            return Err(DecodeError::InvalidBuffer(
                "Buffer must be exactly 8 bytes for u64".to_owned(),
            ));
        }
        proof {
            assert(buf@.subrange(0, 8) =~= buf@);
        }
        Ok(u64_from_be_at(buf, 0))
    }
}

} // verus!
