//! Wire-level building blocks shared by every request shape: the base-128
//! variable-length integer ("varint") used as the length prefix of the
//! compact encodings, and the capabilities a decoded value offers its
//! containers — reporting its consumed byte count and appending its compact
//! wire form to a response buffer.

pub mod compactarray;
pub mod compactstring;
pub mod nullstring;
pub mod partition;
pub mod record;
pub mod topicstr;

use vstd::prelude::*;

use crate::types::compactstring::CompactValueParseError;

verus! {

/// A decoded wire value that knows how many bytes of the buffer its encoding
/// occupied, so a container can advance its cursor past it.
pub trait Offset {
    /// The number of buffer bytes the value's encoding occupied.
    spec fn soffset(&self) -> u64;

    /// Reports the number of buffer bytes the value's encoding occupied.
    fn get_offset(&self) -> (r: u64)
        ensures
            r == self.soffset(),
    ;
}

impl Offset for i32 {
    open spec fn soffset(&self) -> u64 {
        4
    }

    fn get_offset(&self) -> u64 {
        4
    }
}

impl Offset for u64 {
    open spec fn soffset(&self) -> u64 {
        8
    }

    fn get_offset(&self) -> u64 {
        8
    }
}

/// A value that can append its compact wire form to a response buffer.
pub trait CompactEncode {
    /// The bytes of the value's compact wire form.
    spec fn sencode_compact(&self) -> Seq<u8>;

    /// Appends the value's compact wire form to `buf`.
    fn encode_compact(&self, buf: &mut bytes::BytesMut)
        ensures
            crate::ext::bm_bytes(*final(buf)) == crate::ext::bm_bytes(*old(buf))
                + self.sencode_compact(),
    ;
}

/// Result of decoding a varint from the front of `data`, threading the
/// accumulator and bit position exactly as the executable decoder does: each
/// byte contributes its low 7 bits at position `shift`; a clear high bit ends
/// the number; the number is malformed if the bit position would reach 64
/// while bytes remain, or if the buffer ends first.
pub open spec fn varint_decode_rec(data: Seq<u8>, shift: u64, acc: u64) -> Option<(u64, int)>
    decreases data.len(),
{
    if data.len() == 0 {
        None
    } else {
        let b = data[0];
        let acc2 = acc | (((b & 0x7f) as u64) << shift);
        if b & 0x80 == 0 {
            Some((acc2, 1))
        } else if shift + 7 >= 64 {
            None
        } else {
            match varint_decode_rec(data.skip(1), (shift + 7) as u64, acc2) {
                Some((v, n)) => Some((v, n + 1)),
                None => None,
            }
        }
    }
}

/// The value and byte length of the varint at the front of `data`, or `None`
/// if `data` does not begin with a well-formed varint.
pub open spec fn varint_decode(data: Seq<u8>) -> Option<(u64, int)> {
    varint_decode_rec(data, 0, 0)
}

/// The base-128 encoding of `v`: low 7 bits first, high bit set on every byte
/// but the last.
pub open spec fn varint_encode(v: u64) -> Seq<u8>
    decreases v via varint_encode_decreases
{
    if v < 0x80 {
        seq![v as u8]
    } else {
        seq![((v & 0x7f) | 0x80) as u8] + varint_encode(v >> 7)
    }
}

#[via_fn]
proof fn varint_encode_decreases(v: u64) {
    assert(v >= 0x80 ==> v >> 7 < v) by (bit_vector);
}

/// A decoded varint consumed at least one byte and no more than the buffer
/// holds.
pub proof fn lemma_varint_decode_bounds(data: Seq<u8>, shift: u64, acc: u64)
    ensures
        varint_decode_rec(data, shift, acc) matches Some((v, n)) ==> 1 <= n <= data.len(),
    decreases data.len(),
{
    if data.len() > 0 {
        let b = data[0];
        let acc2 = acc | (((b & 0x7f) as u64) << shift);
        if b & 0x80 != 0 && shift + 7 < 64 {
            lemma_varint_decode_bounds(data.skip(1), (shift + 7) as u64, acc2);
        }
    }
}

proof fn lemma_varint_encode_decodes(v: u64, shift: u64, acc: u64, rest: Seq<u8>)
    requires
        shift <= 63,
        (v << shift) >> shift == v,
    ensures
        varint_decode_rec(varint_encode(v) + rest, shift, acc)
            == Some((acc | (v << shift), varint_encode(v).len() as int)),
    decreases v,
{
    let data = varint_encode(v) + rest;
    if v < 0x80 {
        let b = v as u8;
        assert(data[0] == b);
        assert(b & 0x80 == 0 && ((b & 0x7f) as u64) << shift == v << shift) by (bit_vector)
            requires
                v < 0x80,
                b == v as u8,
        ;
    } else {
        let b = ((v & 0x7f) | 0x80) as u8;
        let tail = varint_encode(v >> 7);
        assert(data[0] == b);
        assert(data.skip(1) =~= tail + rest);
        assert(b & 0x80 != 0) by (bit_vector)
            requires
                b == ((v & 0x7f) | 0x80) as u8,
        ;
        assert(shift <= 56) by (bit_vector)
            requires
                v >= 0x80,
                shift <= 63,
                (v << shift) >> shift == v,
        ;
        let shift2 = (shift + 7) as u64;
        let acc2 = acc | (((b & 0x7f) as u64) << shift);
        assert(((v >> 7) << shift2) >> shift2 == v >> 7) by (bit_vector)
            requires
                shift <= 56,
                shift2 == shift + 7,
                (v << shift) >> shift == v,
        ;
        assert(v >> 7 < v) by (bit_vector)
            requires
                v >= 0x80,
        ;
        lemma_varint_encode_decodes(v >> 7, shift2, acc2, rest);
        assert(acc2 | ((v >> 7) << shift2) == acc | (v << shift)) by (bit_vector)
            requires
                b == ((v & 0x7f) | 0x80) as u8,
                acc2 == acc | (((b & 0x7f) as u64) << shift),
                shift <= 56,
                shift2 == shift + 7,
                (v << shift) >> shift == v,
        ;
    }
}

/// Law: the varint decoder inverts the varint encoder.  For every 64-bit
/// value, decoding a buffer that begins with the value's encoding yields the
/// value back together with the exact encoded byte count, whatever bytes
/// follow the encoding.
pub proof fn lemma_varint_round_trip(v: u64, rest: Seq<u8>)
    ensures
        varint_decode(varint_encode(v) + rest) == Some((v, varint_encode(v).len() as int)),
        varint_decode(varint_encode(v)) == Some((v, varint_encode(v).len() as int)),
{
    assert((v << 0) >> 0 == v && 0u64 | (v << 0) == v) by (bit_vector);
    lemma_varint_encode_decodes(v, 0, 0, rest);
    lemma_varint_encode_decodes(v, 0, 0, Seq::empty());
    assert(varint_encode(v) + Seq::<u8>::empty() =~= varint_encode(v));
}

/// Decodes an unsigned base-128 varint from the front of `data`.
///
/// Reads bytes least-significant-group first; each byte contributes its low 7
/// bits; a byte with its high bit clear terminates the number.  Never reads
/// past the terminating byte.
pub fn decode_varint(data: &[u8]) -> (r: Result<(u64, usize), CompactValueParseError>)
    ensures
        match r {
            Ok((v, n)) => varint_decode(data@) == Some((v, n as int)) && 1 <= n <= data@.len(),
            Err(e) => varint_decode(data@) is None && e == CompactValueParseError::InvalidVarint,
        },
{
    let mut value: u64 = 0;
    let mut shift: u64 = 0;
    let mut i: usize = 0;

    proof {
        assert(data@.skip(0) =~= data@);
    }

    while i < data.len()
        invariant
            i <= data@.len(),
            shift == 7 * i,
            shift <= 63,
            varint_decode(data@) == match varint_decode_rec(data@.skip(i as int), shift, value) {
                Some((v, n)) => Some((v, n + i)),
                None => None::<(u64, int)>,
            },
        decreases data@.len() - i,
    {
        let byte = data[i];
        proof {
            assert(data@.skip(i as int)[0] == data@[i as int]);
            assert(data@.skip(i as int).skip(1) =~= data@.skip(i as int + 1));
        }
        value = value | (((byte & 0x7f) as u64) << shift);
        shift = shift + 7;
        i = i + 1;

        if byte & 0x80 == 0 {
            return Ok((value, i));
        }

        if shift >= 64 {
            return Err(CompactValueParseError::InvalidVarint);
        }
    }

    Err(CompactValueParseError::InvalidVarint)
}

/// Encodes `value` as an unsigned base-128 varint, low 7 bits first, setting
/// the continuation bit on every byte but the last.
pub fn encode_zigzag(value: u64) -> (r: Vec<u8>)
    ensures
        r@ == varint_encode(value),
{
    let mut result: Vec<u8> = Vec::new();
    let mut v: u64 = value;

    while v >= 0x80
        invariant
            varint_encode(value) == result@ + varint_encode(v),
        decreases v,
    {
        result.push(((v & 0x7f) | 0x80) as u8);
        proof {
            assert(v >= 0x80 ==> v >> 7 < v) by (bit_vector);
            assert(varint_encode(value) =~= result@ + varint_encode(v >> 7));
        }
        v = v >> 7;
    }

    result.push(v as u8);
    proof {
        assert(varint_encode(value) =~= result@);
    }
    result
}

} // verus!
