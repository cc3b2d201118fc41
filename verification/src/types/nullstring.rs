//! Legacy nullable strings: UTF-8 text prefixed by a signed 16-bit length,
//! where a declared length of -1 is the sole null representation and decodes
//! to the empty string.

use vstd::prelude::*;
use vstd::slice::slice_subrange;
use vstd::slice::slice_to_vec;
use vstd::utf8::decode_utf8;
use vstd::utf8::encode_utf8;
use vstd::utf8::valid_utf8;

use crate::ext::bm_as_slice;
use crate::ext::bm_bytes;
use crate::ext::string_from_utf8;
use crate::rpc::decode::be16_val;
use crate::rpc::encode::be16_bytes;

verus! {

/// A decoded legacy nullable string: its text and the declared length that
/// was read from the wire (0 for the null representation).
#[derive(Debug)]
pub struct NullableString {
    pub value: String,
    pub length: i16,
}

/// Failure modes of the legacy string decoder: a declared span that runs
/// past the end of the buffer, a buffer too short for the fixed header
/// fields, or text that cannot be read as UTF-8.
#[derive(Debug)]
pub enum NullableStringError {
    IndexOutOfBounds,
    InvalidBufLength,
    Other(String),
}

/// True when decoding a legacy string of declared length `length` starting
/// at `idx` succeeds on `data`: the null sentinel always succeeds, any other
/// declared span must lie inside the buffer and hold valid UTF-8.
pub open spec fn nullable_string_ok(data: Seq<u8>, idx: int, length: i16) -> bool {
    ||| length == -1
    ||| (length >= 0 && idx + length <= data.len() && valid_utf8(
        data.subrange(idx, idx + length),
    ))
}

impl NullableString {
    /// Decodes a legacy nullable string of declared `length` from `buf`,
    /// reading the text bytes starting at index `idx`.
    ///
    /// A declared length of -1 yields the empty string with reported length
    /// 0 whatever the buffer holds; any other negative length is rejected.
    pub fn new(buf: &bytes::BytesMut, idx: usize, length: i16) -> (r: Result<
        NullableString,
        NullableStringError,
    >)
        ensures
            r is Ok <==> nullable_string_ok(bm_bytes(*buf), idx as int, length),
            length == -1 ==> (r matches Ok(ns) && ns.length == 0 && ns.value@ == Seq::<
                char,
            >::empty()),
            length < -1 ==> r matches Err(NullableStringError::IndexOutOfBounds),
            length >= 0 && idx + length > bm_bytes(*buf).len() ==> r matches Err(
                NullableStringError::IndexOutOfBounds,
            ),
            length >= 0 ==> (r matches Ok(ns) ==> ns.length == length && ns.value@ == decode_utf8(
                bm_bytes(*buf).subrange(idx as int, idx + length),
            )),
            length >= 0 && idx + length <= bm_bytes(*buf).len() && !valid_utf8(
                bm_bytes(*buf).subrange(idx as int, idx + length),
            ) ==> r matches Err(NullableStringError::Other(_)),
    {
        if length == -1 {
            return Ok(NullableString { value: String::new(), length: 0 });
        }
        if length < 0 {
            return Err(NullableStringError::IndexOutOfBounds);
        }

        let s = bm_as_slice(buf);
        let len_us = length as usize;
        if len_us > s.len() || idx > s.len() - len_us {
            return Err(NullableStringError::IndexOutOfBounds);
        }

        let payload = slice_subrange(s, idx, idx + len_us);
        match string_from_utf8(slice_to_vec(payload)) {
            Some(value) => Ok(NullableString { value, length }),
            None => Err(
                NullableStringError::Other("Failed to read string from bytes".to_owned()),
            ),
        }
    }

    /// The empty, null-representing string: no text, reported length 0.
    pub fn new_empty() -> (r: NullableString)
        ensures
            r.length == 0,
            r.value@ == Seq::<char>::empty(),
    {
        NullableString { value: String::new(), length: 0 }
    }
}

/// Law: the legacy string decoder inverts the legacy encoding.  A buffer
/// built from a string's UTF-8 byte length as a big-endian 16-bit value
/// followed by those bytes declares exactly that length, and the declared
/// span decodes back to the original characters, whatever bytes follow.
/// Together with `NullableString::new`'s contract this pins the decoded
/// text and reported length to the encoded string.
pub proof fn lemma_legacy_string_round_trip(s: Seq<char>, rest: Seq<u8>)
    requires
        encode_utf8(s).len() < 0x8000,
    ensures
        ({
            let b = encode_utf8(s);
            let data = be16_bytes(b.len() as u16) + b + rest;
            &&& be16_val(data.subrange(0, 2)) as i16 == b.len() as i16
            &&& b.len() as i16 >= 0
            &&& data.subrange(2, 2 + b.len() as int) == b
            &&& valid_utf8(b)
            &&& decode_utf8(b) == s
            &&& nullable_string_ok(data, 2, b.len() as i16)
        }),
{
    let b = encode_utf8(s);
    let n = b.len() as u16;
    let data = be16_bytes(n) + b + rest;
    assert(data.subrange(0, 2) =~= be16_bytes(n));
    assert(data.subrange(2, 2 + b.len() as int) =~= b);
    let b0 = (n >> 8) as u8;
    let b1 = n as u8;
    assert(((b0 as u16) << 8 | (b1 as u16)) == n) by (bit_vector)
        requires
            b0 == (n >> 8) as u8,
            b1 == n as u8,
    ;
    vstd::utf8::encode_utf8_valid_utf8(s);
    vstd::utf8::encode_utf8_decode_utf8(s);
}

} // verus!
