//! Topic-partition description: the request naming the topics to describe,
//! answered with one fixed-shape descriptor per requested topic.

use vstd::prelude::*;
use vstd::array::array_as_slice;
use vstd::utf8::encode_utf8;

use crate::ext::bm_as_slice;
use crate::ext::bm_bytes;
use crate::ext::bm_extend;
use crate::ext::bm_len;
use crate::ext::bm_new;
use crate::ext::bm_put_u8;
use crate::protocol::RequestBase;
use crate::rpc::decode::i32_from_be_at;
use crate::rpc::decode::be32_val;
use crate::rpc::decode::DecodeError;
use crate::rpc::encode::be16_bytes;
use crate::rpc::encode::be32_bytes;
use crate::rpc::encode::u16_to_be;
use crate::rpc::encode::u32_to_be;
use crate::rpc::encode::Encode;
use crate::types::compactarray::elems_decoded;
use crate::types::compactarray::elems_decodable;
use crate::types::compactarray::elems_used;
use crate::types::compactarray::CompactArray;
use crate::types::compactstring::CompactString;
use crate::types::topicstr::TopicStr;
use crate::types::varint_decode;
use crate::types::varint_encode;
use crate::types::CompactEncode;

verus! {

/// A decoded topic-partition description request: the common header, the
/// requested topic names, and the partition limit, with the fixed cursor
/// and tag bytes the response carries.
pub struct DescribeTopicPartitions {
    pub base_request: RequestBase,
    pub topics_array: CompactArray<TopicStr>,
    pub response_partition_limit: i32,
    pub cursor: u8,
    pub tag_buffer: u8,
}

/// One topic descriptor of the response: a fixed "unknown topic" error
/// code, the topic name, an all-zero topic id, the "is internal" flag, an
/// empty partition array, the authorized-operations bitmask, and a tag
/// byte.
pub struct Topic {
    pub error: u16,
    pub name: CompactString,
    pub id: [u8; 16],
    pub is_internal: u8,
    pub partitions: CompactArray<CompactString>,
    pub authorized_operations: u32,
    pub tag_buffer: u8,
}

impl Encode for Topic {
    open spec fn sencode(&self) -> Seq<u8> {
        be16_bytes(self.error) + varint_encode(self.name.size as u64) + encode_utf8(
            self.name.value@,
        ) + self.id@ + seq![self.is_internal] + self.partitions.sencode() + be32_bytes(
            self.authorized_operations,
        ) + seq![self.tag_buffer]
    }

    fn encode(&self, buf: &mut bytes::BytesMut) {
        let error_bytes = u16_to_be(self.error);
        bm_extend(buf, error_bytes.as_slice());
        self.name.encode_compact(buf);
        bm_extend(buf, array_as_slice(&self.id));
        bm_put_u8(buf, self.is_internal);
        self.partitions.encode(buf);
        let ops_bytes = u32_to_be(self.authorized_operations);
        bm_extend(buf, ops_bytes.as_slice());
        bm_put_u8(buf, self.tag_buffer);
        proof {
            assert(bm_bytes(*buf) =~= bm_bytes(*old(buf)) + self.sencode());
        }
    }
}

impl Topic {
    /// Builds the fixed-shape descriptor for one topic name: error code 3
    /// ("unknown topic"), a zeroed topic id, not internal, no partitions,
    /// and the fixed authorized-operations bitmask.
    fn new(name: &CompactString) -> (r: Result<Topic, DecodeError>)
        ensures
            r matches Ok(t) && t.error == 3 && t.name.value@ == name.value@
                && t.name.size == name.size && t.name.size_len_bytes == name.size_len_bytes
                && t.id@ == Seq::new(16, |i: int| 0u8) && t.is_internal == 0
                && t.partitions.elements@.len() == 0 && t.authorized_operations == 0xdf8
                && t.tag_buffer == 0,
    {
        let id: [u8; 16] = [0u8; 16];
        proof {
            assert(id@ =~= Seq::new(16, |i: int| 0u8));
        }
        Ok(
            Topic {
                error: 3,
                name: CompactString {
                    value: name.value.clone(),
                    size: name.size,
                    size_len_bytes: name.size_len_bytes,
                },
                id,
                is_internal: 0,
                partitions: CompactArray { elements: Vec::new() },
                authorized_operations: 0x0000_0df8,
                tag_buffer: 0,
            },
        )
    }
}

/// The response descriptor bytes for one decoded topic name: the name is
/// compact-encoded, the varint of its byte length then its UTF-8 bytes.
pub open spec fn topic_descriptor_bytes(name: CompactString) -> Seq<u8> {
    be16_bytes(3u16) + varint_encode(name.size as u64) + encode_utf8(name.value@) + Seq::new(
        16,
        |i: int| 0u8,
    ) + seq![0u8] + seq![1u8] + be32_bytes(0xdf8u32) + seq![0u8]
}

/// The concatenated descriptors of a sequence of decoded topics.
pub open spec fn topics_bytes(topics: Seq<TopicStr>) -> Seq<u8>
    decreases topics.len(),
{
    if topics.len() == 0 {
        Seq::empty()
    } else {
        topic_descriptor_bytes(topics[0].value) + topics_bytes(topics.drop_first())
    }
}

/// The body of a topic-partition description response: correlation id, zero
/// throttle value, topic count plus one, the topic descriptors, the cursor
/// byte, and a trailing tag byte.
pub open spec fn describe_response_body(
    corr: i32,
    topics: Seq<TopicStr>,
    cursor: u8,
    tag: u8,
) -> Seq<u8> {
    be32_bytes(corr as u32) + be32_bytes(0u32) + seq![(topics.len() + 1) as u8] + topics_bytes(
        topics,
    ) + seq![cursor, tag]
}

/// The whole framed response: the body prefixed by its byte length.
pub open spec fn describe_response(corr: i32, topics: Seq<TopicStr>, cursor: u8, tag: u8) -> Seq<
    u8,
> {
    be32_bytes(describe_response_body(corr, topics, cursor, tag).len() as u32)
        + describe_response_body(corr, topics, cursor, tag)
}

proof fn lemma_topics_bytes_take_push(topics: Seq<TopicStr>, i: int)
    requires
        0 <= i < topics.len(),
    ensures
        topics_bytes(topics.take(i + 1)) == topics_bytes(topics.take(i)) + topic_descriptor_bytes(
            topics[i].value,
        ),
    decreases i,
{
    if i == 0 {
        assert(topics.take(1)[0] == topics[0]);
        assert(topics.take(1).drop_first() =~= Seq::<TopicStr>::empty());
        assert(topics.take(0) =~= Seq::<TopicStr>::empty());
        assert(topics_bytes(topics.take(1)) =~= topics_bytes(topics.take(0))
            + topic_descriptor_bytes(topics[0].value));
    } else {
        lemma_topics_bytes_take_push(topics.drop_first(), i - 1);
        assert(topics.take(i + 1).drop_first() =~= topics.drop_first().take(i));
        assert(topics.take(i).drop_first() =~= topics.drop_first().take(i - 1));
        assert(topics.take(i + 1)[0] == topics[0] && topics.take(i)[0] == topics[0]);
        assert(topics.drop_first()[i - 1] == topics[i]);
        assert(topics_bytes(topics.take(i + 1)) =~= topics_bytes(topics.take(i))
            + topic_descriptor_bytes(topics[i].value));
    }
}

proof fn lemma_topics_elems_agree(
    data: Seq<u8>,
    count: nat,
    e1: Seq<TopicStr>,
    u1: int,
    e2: Seq<TopicStr>,
    u2: int,
)
    requires
        elems_decoded::<TopicStr>(data, count, e1, u1),
        elems_decoded::<TopicStr>(data, count, e2, u2),
    ensures
        topics_bytes(e1) == topics_bytes(e2),
    decreases count,
{
    if count > 0 {
        let c0 = <TopicStr as crate::rpc::decode::Decode<TopicStr>>::sconsumed(data);
        lemma_topics_elems_agree(
            data.skip(c0),
            (count - 1) as nat,
            e1.drop_first(),
            u1 - c0,
            e2.drop_first(),
            u2 - c0,
        );
        assert(topic_descriptor_bytes(e1[0].value) == topic_descriptor_bytes(e2[0].value));
    }
}

/// Two parses of the same request body agree on everything the response
/// depends on: the topic count, the descriptor bytes, the partition limit,
/// and so the whole response.
pub proof fn lemma_describe_parsed_agree(
    base: RequestBase,
    data: Seq<u8>,
    d1: DescribeTopicPartitions,
    d2: DescribeTopicPartitions,
)
    requires
        describe_request_parsed(base, data, d1),
        describe_request_parsed(base, data, d2),
    ensures
        d1.topics_array.elements@.len() == d2.topics_array.elements@.len(),
        topics_bytes(d1.topics_array.elements@) == topics_bytes(d2.topics_array.elements@),
        d1.response_partition_limit == d2.response_partition_limit,
        describe_response_body(base.correlation_id, d1.topics_array.elements@, 0xff, 0)
            == describe_response_body(base.correlation_id, d2.topics_array.elements@, 0xff, 0),
        describe_response(base.correlation_id, d1.topics_array.elements@, 0xff, 0)
            == describe_response(base.correlation_id, d2.topics_array.elements@, 0xff, 0),
{
    let (count, n) = varint_decode(data).unwrap();
    let used = n + elems_used::<TopicStr>(data.skip(n), (count - 1) as nat);
    lemma_topics_elems_agree(
        data.skip(n),
        (count - 1) as nat,
        d1.topics_array.elements@,
        used - n,
        d2.topics_array.elements@,
        used - n,
    );
}

/// True when `data` parses as a topic-partition description request body
/// for the header `base`: a compact array of topic names followed by a
/// 4-byte partition limit, yielding exactly the fields of `d`.
pub open spec fn describe_request_parsed(
    base: RequestBase,
    data: Seq<u8>,
    d: DescribeTopicPartitions,
) -> bool {
    &&& d.base_request == base
    &&& (varint_decode(data) matches Some((count, n)) && count >= 1 && ({
        let used = n + elems_used::<TopicStr>(data.skip(n), (count - 1) as nat);
        &&& elems_decoded::<TopicStr>(
            data.skip(n),
            (count - 1) as nat,
            d.topics_array.elements@,
            used - n,
        )
        &&& used + 4 <= data.len()
        &&& d.response_partition_limit == be32_val(data.subrange(used, used + 4)) as i32
    }))
    &&& d.cursor == 0xff
    &&& d.tag_buffer == 0
}

/// True when decoding a topic-partition description request body from
/// `data` succeeds: the topic array is decodable and 4 bytes of partition
/// limit follow it.
pub open spec fn describe_request_ok(data: Seq<u8>) -> bool {
    varint_decode(data) matches Some((count, n)) && count >= 1 && elems_decodable::<TopicStr>(
        data.skip(n),
        (count - 1) as nat,
    ) && n + elems_used::<TopicStr>(data.skip(n), (count - 1) as nat) + 4 <= data.len()
}

impl DescribeTopicPartitions {
    /// Decodes a topic-partition description request body: a compact array
    /// of topic names, then the 4-byte response partition limit.
    pub fn new(base_request: RequestBase, buf: &[u8]) -> (r: Result<
        DescribeTopicPartitions,
        DecodeError,
    >)
        ensures
            r is Ok <==> describe_request_ok(buf@),
            r matches Ok(d) ==> describe_request_parsed(base_request, buf@, d),
    {
        let (topics_array, offset) = match CompactArray::<TopicStr>::new(buf) {
            Ok(v) => v,
            Err(_) => {
                return Err(
                    DecodeError::InvalidBuffer("Could not parse the topic array".to_owned()),
                );
            },
        };
        if buf.len() - offset < 4 {
            return Err(
                DecodeError::InvalidBuffer(
                    "Buffer too short for the partition limit".to_owned(),
                ),
            );
        }
        let response_partition_limit = i32_from_be_at(buf, offset);
        Ok(
            DescribeTopicPartitions {
                base_request,
                topics_array,
                response_partition_limit,
                cursor: 0xff,
                tag_buffer: 0x00,
            },
        )
    }

    /// Assembles the topic-partition description response: for each
    /// requested topic one fixed-shape descriptor naming it with the
    /// "unknown topic" error code and a zeroed topic id, then the cursor
    /// and tag bytes, all length-prefixed.  Fails exactly when the topic
    /// count does not fit the count byte or the body length does not fit
    /// the 32-bit frame size.
    pub fn get_response(&self) -> (r: Result<bytes::BytesMut, DecodeError>)
        ensures
            r is Ok <==> (self.topics_array.elements@.len() <= 254 && describe_response_body(
                self.base_request.correlation_id,
                self.topics_array.elements@,
                self.cursor,
                self.tag_buffer,
            ).len() <= i32::MAX),
            r matches Ok(b) ==> bm_bytes(b) == describe_response(
                self.base_request.correlation_id,
                self.topics_array.elements@,
                self.cursor,
                self.tag_buffer,
            ),
    {
        let n_topics = self.topics_array.elements.len();
        if n_topics > 254 {
            return Err(
                DecodeError::InvalidBuffer("Too many topics for one response".to_owned()),
            );
        }

        let mut message = bm_new();
        let corr_bytes = u32_to_be(self.base_request.correlation_id as u32);
        bm_extend(&mut message, corr_bytes.as_slice());
        let throttle = u32_to_be(0);
        bm_extend(&mut message, throttle.as_slice());
        bm_put_u8(&mut message, (n_topics + 1) as u8);

        let ghost prefix = be32_bytes(self.base_request.correlation_id as u32) + be32_bytes(0u32)
            + seq![(self.topics_array.elements@.len() + 1) as u8];
        proof {
            assert(self.topics_array.elements@.take(0) =~= Seq::<TopicStr>::empty());
            assert(bm_bytes(message) =~= prefix + topics_bytes(
                self.topics_array.elements@.take(0),
            ));
        }

        let mut i: usize = 0;
        while i < self.topics_array.elements.len()
            invariant
                i <= self.topics_array.elements@.len(),
                prefix == be32_bytes(self.base_request.correlation_id as u32) + be32_bytes(0u32)
                    + seq![(self.topics_array.elements@.len() + 1) as u8],
                bm_bytes(message) == prefix + topics_bytes(
                    self.topics_array.elements@.take(i as int),
                ),
            decreases self.topics_array.elements@.len() - i,
        {
            let topic = match Topic::new(&self.topics_array.elements[i].value) {
                Ok(t) => t,
                Err(e) => {
                    return Err(e);
                },
            };
            topic.encode(&mut message);
            proof {
                lemma_topics_bytes_take_push(self.topics_array.elements@, i as int);
                assert(topic.sencode() =~= topic_descriptor_bytes(
                    self.topics_array.elements@[i as int].value,
                ));
                assert(bm_bytes(message) =~= prefix + topics_bytes(
                    self.topics_array.elements@.take(i as int + 1),
                ));
            }
            i = i + 1;
        }

        bm_put_u8(&mut message, self.cursor);
        bm_put_u8(&mut message, self.tag_buffer);
        proof {
            assert(self.topics_array.elements@.take(self.topics_array.elements@.len() as int)
                =~= self.topics_array.elements@);
            assert(bm_bytes(message) =~= describe_response_body(
                self.base_request.correlation_id,
                self.topics_array.elements@,
                self.cursor,
                self.tag_buffer,
            ));
        }

        let message_len = bm_len(&message);
        if message_len > (i32::MAX as usize) {
            return Err(
                DecodeError::InvalidBuffer("Response body too large to frame".to_owned()),
            );
        }
        let len: i32 = message_len as i32;
        let mut response = bm_new();
        len.encode(&mut response);
        bm_extend(&mut response, bm_as_slice(&message));
        proof {
            assert(bm_bytes(response) =~= describe_response(
                self.base_request.correlation_id,
                self.topics_array.elements@,
                self.cursor,
                self.tag_buffer,
            ));
        }
        Ok(response)
    }
}

} // verus!
