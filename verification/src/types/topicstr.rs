//! Topic-name strings: a compact string whose wire payload is conventionally
//! NUL-terminated.  One trailing NUL byte, when present, is stripped from the
//! text, and the reported size and consumed-prefix count are adjusted down by
//! one, so that the terminator is read back as the element's tag byte.

use vstd::prelude::*;
use vstd::slice::slice_subrange;
use vstd::slice::slice_to_vec;
use vstd::utf8::decode_utf8;
use vstd::utf8::valid_utf8;

use crate::ext::string_from_utf8;
use crate::rpc::decode::Decode;
use crate::rpc::decode::DecodeError;
use crate::types::compactstring::compact_string_ok;
use crate::types::compactstring::compact_string_spec;
use crate::types::compactstring::CompactString;
use crate::types::compactstring::CompactValueParseError;
use crate::types::Offset;

verus! {

/// A decoded topic name: the adjusted compact string, the tag byte read
/// right after it, and the total number of buffer bytes consumed, tag byte
/// included.
#[derive(Debug)]
pub struct TopicStr {
    pub value: CompactString,
    pub tag_buffer: u8,
    pub bytes_len: usize,
}

/// The payload bytes of the topic name at the front of `data`, after the
/// trailing NUL, if any, has been stripped, together with the adjusted
/// consumed byte count (which is then the position of the tag byte).
pub open spec fn topic_str_spec(data: Seq<u8>) -> Option<(Seq<u8>, int)> {
    match compact_string_spec(data) {
        None => None,
        Some((payload, total)) => if payload.len() > 0 && payload.last() == 0 {
            Some((payload.drop_last(), total - 1))
        } else {
            Some((payload, total))
        },
    }
}

/// True on the buffers whose head is a well-formed topic name: a well-formed
/// compact string with at least one byte left after it for the tag (the
/// stripped NUL itself serves as the tag byte when present).
pub open spec fn topic_str_ok(data: Seq<u8>) -> bool {
    compact_string_ok(data) && (topic_str_spec(data) matches Some((_, total2)) && total2
        < data.len())
}

impl TopicStr {
    /// Decodes the topic name at the front of `buf`: a compact string whose
    /// single trailing NUL, if present, is stripped with size and prefix
    /// count adjusted down by one, followed by one tag byte.
    pub fn new(buf: &[u8]) -> (r: Result<TopicStr, CompactValueParseError>)
        ensures
            r is Ok <==> topic_str_ok(buf@),
            r matches Ok(t) ==> <TopicStr as Decode<TopicStr>>::sdecoded(buf@, t),
            r matches Err(e) ==> !topic_str_ok(buf@),
    {
        let buf_len = buf.len();
        let cs = CompactString::new(buf)?;
        proof {
            crate::types::lemma_varint_decode_bounds(buf@, 0, 0);
            assert(buf@.len() == buf_len);
        }
        let total = cs.size_len_bytes as usize;

        if cs.size >= 1 && buf[total - 1] == 0 {
            proof {
                let payload = compact_string_spec(buf@).unwrap().0;
                assert(payload.last() == buf@[total - 1]);
                vstd::utf8::is_char_boundary_iff_not_is_continuation_byte(
                    payload,
                    payload.len() - 1,
                );
                vstd::utf8::valid_utf8_split(payload, payload.len() - 1);
                vstd::utf8::decode_utf8_split(payload, payload.len() - 1);
                assert(payload.subrange(0, payload.len() - 1) =~= payload.drop_last());
                assert(payload.drop_last() =~= buf@.subrange(
                    total - cs.size as int,
                    total - 1,
                ));
            }
            let payload2 = slice_subrange(buf, total - cs.size, total - 1);
            match string_from_utf8(slice_to_vec(payload2)) {
                Some(value2) => Ok(
                    TopicStr {
                        value: CompactString {
                            value: value2,
                            size: cs.size - 1,
                            size_len_bytes: cs.size_len_bytes - 1,
                        },
                        tag_buffer: 0,
                        bytes_len: total,
                    },
                ),
                None => {
                    // Unreachable: dropping the trailing NUL, a whole
                    // character, keeps the payload valid UTF-8.
                    proof {
                        assert(false);
                    }
                    Err(CompactValueParseError::InvalidUtf8)
                },
            }
        } else {
            if total >= buf.len() {
                return Err(CompactValueParseError::InvalidLengthPrefix);
            }
            let tag_buffer = buf[total];
            Ok(TopicStr { value: cs, tag_buffer, bytes_len: total + 1 })
        }
    }
}

impl Offset for TopicStr {
    open spec fn soffset(&self) -> u64 {
        vstd::wrapping::u64_specs::wrapping_add(self.value.size_len_bytes, 1)
    }

    fn get_offset(&self) -> u64 {
        self.value.size_len_bytes.wrapping_add(1)
    }
}

impl Decode<TopicStr> for TopicStr {
    open spec fn sdecode_ok(data: Seq<u8>) -> bool {
        topic_str_ok(data)
    }

    open spec fn sdecoded(data: Seq<u8>, v: TopicStr) -> bool {
        compact_string_ok(data) && (topic_str_spec(data) matches Some((payload2, total2))
            && total2 < data.len() && v.value.value@ == decode_utf8(payload2)
            && v.value.size == payload2.len() && v.value.size_len_bytes == total2
            && v.tag_buffer == data[total2] && v.bytes_len == total2 + 1)
    }

    open spec fn sconsumed(data: Seq<u8>) -> int {
        topic_str_spec(data).unwrap().1 + 1
    }

    fn decode(buf: &[u8]) -> (r: Result<TopicStr, DecodeError>) {
        proof {
            crate::types::lemma_varint_decode_bounds(buf@, 0, 0);
        }
        match TopicStr::new(buf) {
            Ok(val) => Ok(val),
            Err(_) => Err(
                DecodeError::InvalidBuffer("Could not parse topic string from buffer".to_owned()),
            ),
        }
    }
}

} // verus!
