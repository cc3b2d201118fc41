//! The common request and response framing: the leading fields every
//! request carries, and the response base of frame size and correlation id.

use vstd::prelude::*;
use vstd::utf8::decode_utf8;
use vstd::utf8::valid_utf8;

use crate::ext::bm_as_slice;
use crate::ext::bm_bytes;
use crate::rpc::decode::be16_val;
use crate::rpc::decode::be32_val;
use crate::rpc::decode::i16_from_be_at;
use crate::rpc::decode::i32_from_be_at;
use crate::rpc::encode::be32_bytes;
use crate::rpc::encode::Encode;
use crate::types::nullstring::NullableString;
use crate::types::nullstring::NullableStringError;

verus! {

/// The leading fields of a response: the frame size and the correlation id
/// echoed back to the client.
pub struct ResponseBase {
    pub size: i32,
    pub correlation_id: i32,
}

impl ResponseBase {
    /// Builds a response base from its frame size and correlation id.
    pub fn new(size: i32, correlation_id: i32) -> (r: ResponseBase)
        ensures
            r.size == size,
            r.correlation_id == correlation_id,
    {
        ResponseBase { size, correlation_id }
    }
}

impl Encode for ResponseBase {
    open spec fn sencode(&self) -> Seq<u8> {
        be32_bytes(self.size as u32) + be32_bytes(self.correlation_id as u32)
    }

    fn encode(&self, buf: &mut bytes::BytesMut) {
        self.size.encode(buf);
        self.correlation_id.encode(buf);
        proof {
            assert(bm_bytes(*buf) =~= bm_bytes(*old(buf)) + self.sencode());
        }
    }
}

/// The decoded common request header: frame size, API key and version, the
/// correlation id, the client id, and the byte offset where the
/// request-specific body begins.
pub struct RequestBase {
    pub size: i32,
    pub api_key: i16,
    pub api_version: i16,
    pub correlation_id: i32,
    pub client_id: NullableString,
    pub base_size: i16,
}

/// The client-id length field stored at bytes 12 and 13 of the header.
pub open spec fn client_id_size_of(data: Seq<u8>) -> i16 {
    be16_val(data.subrange(12, 14)) as i16
}

/// True when `data` holds a well-formed request header: at least the 14
/// fixed bytes, and a client id that is either null or a valid UTF-8 span
/// inside the buffer whose end offset still fits the 16-bit header length.
pub open spec fn request_base_ok(data: Seq<u8>) -> bool {
    &&& data.len() >= 14
    &&& ({
        let csize = client_id_size_of(data);
        ||| csize == -1
        ||| (csize >= 0 && 14 + csize <= data.len() && 14 + csize <= i16::MAX && valid_utf8(
            data.subrange(14, 14 + csize),
        ))
    })
}

impl RequestBase {
    /// Decodes the common request header from the front of `buf`.
    ///
    /// The fixed fields sit at offsets 0, 4, 6, 8 and 12; a client-id length
    /// of -1 ends the header at offset 14 with an empty client id, any other
    /// non-negative length is decoded as a legacy string starting at offset
    /// 14, and the header end is 14 plus that length.
    pub fn new(buf: &bytes::BytesMut) -> (r: Result<RequestBase, NullableStringError>)
        ensures
            r is Ok <==> request_base_ok(bm_bytes(*buf)),
            bm_bytes(*buf).len() < 14 ==> r matches Err(NullableStringError::InvalidBufLength),
            r matches Ok(h) ==> ({
                let data = bm_bytes(*buf);
                let csize = client_id_size_of(data);
                &&& data.len() >= 14
                &&& h.size == be32_val(data.subrange(0, 4)) as i32
                &&& h.api_key == be16_val(data.subrange(4, 6)) as i16
                &&& h.api_version == be16_val(data.subrange(6, 8)) as i16
                &&& h.correlation_id == be32_val(data.subrange(8, 12)) as i32
                &&& (if csize == -1 {
                    h.base_size == 14 && h.client_id.length == 0 && h.client_id.value@
                        == Seq::<char>::empty()
                } else {
                    h.base_size == 14 + csize && h.client_id.length == csize
                        && h.client_id.value@ == decode_utf8(data.subrange(14, 14 + csize))
                })
            }),
            ({
                let data = bm_bytes(*buf);
                let csize = client_id_size_of(data);
                &&& (data.len() >= 14 && csize < -1 ==> r matches Err(
                    NullableStringError::IndexOutOfBounds,
                ))
                &&& (data.len() >= 14 && csize >= 0 && 14 + csize > i16::MAX ==> r matches Err(
                    NullableStringError::InvalidBufLength,
                ))
                &&& (data.len() >= 14 && csize >= 0 && 14 + csize <= i16::MAX && 14 + csize
                    > data.len() ==> r matches Err(NullableStringError::IndexOutOfBounds))
                &&& (data.len() >= 14 && csize >= 0 && 14 + csize <= i16::MAX && 14 + csize
                    <= data.len() && !valid_utf8(data.subrange(14, 14 + csize)) ==> r matches Err(
                    NullableStringError::Other(_),
                ))
            }),
    {
        let s = bm_as_slice(buf);
        if s.len() < 14 {
            return Err(NullableStringError::InvalidBufLength);
        }

        let client_id_size = i16_from_be_at(s, 12);

        let (base_size, client_id) = if client_id_size == -1 {
            (14i16, NullableString::new_empty())
        } else {
            if client_id_size < -1 {
                return Err(NullableStringError::IndexOutOfBounds);
            }
            if client_id_size > i16::MAX - 14 {
                return Err(NullableStringError::InvalidBufLength);
            }
            (14 + client_id_size, NullableString::new(buf, 14, client_id_size)?)
        };

        Ok(
            RequestBase {
                size: i32_from_be_at(s, 0),
                api_key: i16_from_be_at(s, 4),
                api_version: i16_from_be_at(s, 6),
                correlation_id: i32_from_be_at(s, 8),
                client_id,
                base_size,
            },
        )
    }
}

} // verus!
