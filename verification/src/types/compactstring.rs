//! Compact strings: UTF-8 text length-prefixed by a varint.  The payload
//! length is exactly the decoded varint value; the total consumed byte count
//! (prefix plus payload) is kept alongside the text so containers can locate
//! the next element.

use vstd::prelude::*;
use vstd::slice::slice_subrange;
use vstd::slice::slice_to_vec;
use vstd::utf8::decode_utf8;
use vstd::utf8::encode_utf8;
use vstd::utf8::valid_utf8;

use crate::ext::bm_bytes;
use crate::ext::bm_extend;
use crate::ext::string_from_utf8;
use crate::rpc::decode::Decode;
use crate::rpc::decode::DecodeError;
use crate::rpc::encode::be64_bytes;
use crate::rpc::encode::u64_to_be;
use crate::rpc::encode::Encode;
use crate::types::decode_varint;
use crate::types::encode_zigzag;
use crate::types::varint_decode;
use crate::types::varint_encode;
use crate::types::CompactEncode;
use crate::types::Offset;

verus! {

/// A decoded compact string: its text, the byte length of the text, and the
/// total number of buffer bytes its encoding occupied (varint length prefix
/// plus payload), which is what containers advance their cursor by.
#[derive(Debug)]
pub struct CompactString {
    pub value: String,
    pub size: usize,
    pub size_len_bytes: u64,
}

/// Failure modes of the compact decoders: a malformed or overflowing varint,
/// text that is not valid UTF-8, or a declared length that runs past the end
/// of the buffer.
#[derive(Debug, Clone, PartialEq, Eq, Structural)]
pub enum CompactValueParseError {
    InvalidVarint,
    InvalidUtf8,
    InvalidLengthPrefix,
}

/// The payload bytes and total consumed byte count of the compact string at
/// the front of `data`: a varint length prefix followed by exactly that many
/// payload bytes.  `None` if the varint is malformed or the declared length
/// runs past the end of the buffer.
pub open spec fn compact_string_spec(data: Seq<u8>) -> Option<(Seq<u8>, int)> {
    match varint_decode(data) {
        None => None,
        Some((len, n)) => if len as int > data.len() - n {
            None
        } else {
            Some((data.subrange(n, n + len as int), n + len as int))
        },
    }
}

/// True on the buffers whose head is a well-formed compact string: the
/// declared payload is present and is valid UTF-8.
pub open spec fn compact_string_ok(data: Seq<u8>) -> bool {
    compact_string_spec(data) matches Some((payload, _)) && valid_utf8(payload)
}

/// Which error decoding the compact string at the front of `data` reports.
pub open spec fn compact_string_err(data: Seq<u8>, e: CompactValueParseError) -> bool {
    match e {
        CompactValueParseError::InvalidVarint => varint_decode(data) is None,
        CompactValueParseError::InvalidLengthPrefix => varint_decode(data) matches Some((len, n))
            && len as int > data.len() - n,
        CompactValueParseError::InvalidUtf8 => compact_string_spec(data) matches Some(
            (payload, _),
        ) && !valid_utf8(payload),
    }
}

impl CompactString {
    /// Decodes a compact string from the front of `buf`, returning the text
    /// together with the total number of bytes read (length prefix plus
    /// payload).
    pub fn get(buf: &[u8]) -> (r: Result<(String, u64), CompactValueParseError>)
        ensures
            match r {
                Ok((s, total)) => compact_string_spec(buf@) matches Some((payload, t))
                    && valid_utf8(payload) && s@ == decode_utf8(payload) && total == t,
                Err(e) => compact_string_err(buf@, e),
            },
            r is Ok <==> compact_string_ok(buf@),
    {
        let (length, varint_bytes_read) = decode_varint(buf)?;

        if length > (buf.len() - varint_bytes_read) as u64 {
            return Err(CompactValueParseError::InvalidLengthPrefix);
        }

        let total_bytes_read = varint_bytes_read as u64 + length;
        let string_bytes = slice_subrange(
            buf,
            varint_bytes_read,
            varint_bytes_read + length as usize,
        );

        match string_from_utf8(slice_to_vec(string_bytes)) {
            Some(s) => Ok((s, total_bytes_read)),
            None => Err(CompactValueParseError::InvalidUtf8),
        }
    }

    /// Decodes the compact string at the front of `buf` into a
    /// `CompactString` carrying the text, its byte length, and the consumed
    /// byte count.
    pub fn new(buf: &[u8]) -> (r: Result<CompactString, CompactValueParseError>)
        ensures
            match r {
                Ok(cs) => <CompactString as Decode<CompactString>>::sdecoded(buf@, cs),
                Err(e) => compact_string_err(buf@, e),
            },
            r is Ok <==> compact_string_ok(buf@),
    {
        let buf_len = buf.len();
        let (value, size_len_bytes) = Self::get(buf)?;
        proof {
            assert(buf@.len() == buf_len);
            let payload = compact_string_spec(buf@).unwrap().0;
            crate::types::lemma_varint_decode_bounds(buf@, 0, 0);
            vstd::utf8::decode_utf8_encode_utf8(payload);
            assert(encode_utf8(value@) == payload);
            assert(payload.len() <= buf@.len());
        }
        Ok(CompactString { size: value.as_str().len(), value, size_len_bytes })
    }
}

impl Offset for CompactString {
    open spec fn soffset(&self) -> u64 {
        self.size_len_bytes
    }

    fn get_offset(&self) -> u64 {
        self.size_len_bytes
    }
}

impl Decode<CompactString> for CompactString {
    open spec fn sdecode_ok(data: Seq<u8>) -> bool {
        compact_string_ok(data)
    }

    open spec fn sdecoded(data: Seq<u8>, v: CompactString) -> bool {
        compact_string_spec(data) matches Some((payload, total)) && valid_utf8(payload)
            && v.value@ == decode_utf8(payload) && v.size == payload.len()
            && v.size_len_bytes == total
    }

    open spec fn sconsumed(data: Seq<u8>) -> int {
        compact_string_spec(data).unwrap().1
    }

    fn decode(buf: &[u8]) -> (r: Result<CompactString, DecodeError>) {
        proof {
            crate::types::lemma_varint_decode_bounds(buf@, 0, 0);
        }
        match CompactString::new(buf) {
            Ok(val) => Ok(val),
            Err(_) => Err(
                DecodeError::InvalidBuffer("Could not parse compact string from buffer".to_owned()),
            ),
        }
    }
}

impl Decode<CompactString> for [u8] {
    open spec fn sdecode_ok(data: Seq<u8>) -> bool {
        compact_string_ok(data)
    }

    open spec fn sdecoded(data: Seq<u8>, v: CompactString) -> bool {
        <CompactString as Decode<CompactString>>::sdecoded(data, v)
    }

    open spec fn sconsumed(data: Seq<u8>) -> int {
        compact_string_spec(data).unwrap().1
    }

    fn decode(buf: &[u8]) -> (r: Result<CompactString, DecodeError>) {
        proof {
            crate::types::lemma_varint_decode_bounds(buf@, 0, 0);
        }
        match CompactString::new(buf) {
            Ok(val) => Ok(val),
            Err(_) => Err(
                DecodeError::InvalidBuffer("Could not parse compact string from buffer".to_owned()),
            ),
        }
    }
}

impl Encode for CompactString {
    open spec fn sencode(&self) -> Seq<u8> {
        be64_bytes(self.size as u64) + encode_utf8(self.value@)
    }

    fn encode(&self, buf: &mut bytes::BytesMut) {
        let size_bytes = u64_to_be(self.size as u64);
        bm_extend(buf, size_bytes.as_slice());
        bm_extend(buf, self.value.as_str().as_bytes());
        proof {
            assert(bm_bytes(*buf) =~= bm_bytes(*old(buf)) + self.sencode());
        }
    }
}

impl CompactEncode for CompactString {
    open spec fn sencode_compact(&self) -> Seq<u8> {
        varint_encode(self.size as u64) + encode_utf8(self.value@)
    }

    fn encode_compact(&self, buf: &mut bytes::BytesMut) {
        let size_bytes = encode_zigzag(self.size as u64);
        bm_extend(buf, size_bytes.as_slice());
        bm_extend(buf, self.value.as_str().as_bytes());
        proof {
            assert(bm_bytes(*buf) =~= bm_bytes(*old(buf)) + self.sencode_compact());
        }
    }
}

/// Law: `encode_compact` is the inverse of the compact-string decoder.  For
/// a compact string whose recorded size is its text's UTF-8 byte length —
/// which every decoded one satisfies — the compact decoder reads the
/// compact-encoded bytes back to exactly that text, whatever bytes follow.
pub proof fn lemma_encode_compact_round_trip(cs: CompactString, rest: Seq<u8>)
    requires
        cs.size == encode_utf8(cs.value@).len(),
    ensures
        ({
            let enc = cs.sencode_compact();
            &&& compact_string_ok(enc + rest)
            &&& compact_string_spec(enc + rest) == Some(
                (encode_utf8(cs.value@), enc.len() as int),
            )
            &&& decode_utf8(encode_utf8(cs.value@)) == cs.value@
        }),
{
    lemma_compact_string_round_trip(cs.value@, rest);
    assert(cs.sencode_compact() + rest =~= varint_encode(encode_utf8(cs.value@).len() as u64)
        + encode_utf8(cs.value@) + rest);
}

/// Law: the compact-string decoder inverts the compact-string encoding.  For
/// every character sequence, a buffer that begins with the varint of the
/// UTF-8 byte length followed by the UTF-8 bytes decodes to exactly those
/// payload bytes — and so, by the decoders' contracts, to the original
/// characters — whatever bytes follow.
pub proof fn lemma_compact_string_round_trip(s: Seq<char>, rest: Seq<u8>)
    requires
        encode_utf8(s).len() <= u64::MAX,
    ensures
        ({
            let b = encode_utf8(s);
            let pre = varint_encode(b.len() as u64);
            let data = pre + b + rest;
            &&& compact_string_spec(data) == Some((b, pre.len() + b.len() as int))
            &&& valid_utf8(b)
            &&& decode_utf8(b) == s
            &&& compact_string_ok(data)
        }),
{
    let b = encode_utf8(s);
    let pre = varint_encode(b.len() as u64);
    let data = pre + b + rest;
    crate::types::lemma_varint_round_trip(b.len() as u64, b + rest);
    assert(pre + (b + rest) =~= data);
    assert(data.subrange(pre.len() as int, pre.len() + b.len() as int) =~= b);
    vstd::utf8::encode_utf8_valid_utf8(s);
    vstd::utf8::encode_utf8_decode_utf8(s);
}

} // verus!
