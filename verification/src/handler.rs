//! Request dispatch: maps a decoded API key to the request codec that
//! handles it, drives the body decode, and hands back the framed response
//! bytes — or nothing, when the key is unknown or the body malformed.

use vstd::prelude::*;

use crate::ext::bm_as_slice;
use crate::ext::bm_bytes;
use crate::protocol::RequestBase;
use crate::schema::apiversions::api_version_request_ok;
use crate::schema::apiversions::api_versions_response;
use crate::schema::apiversions::ApiVersionRequest;
use crate::schema::apiversions::SupportedVersionsKey;
use crate::schema::describetopic::describe_request_ok;
use crate::schema::describetopic::describe_request_parsed;
use crate::schema::describetopic::describe_response;
use crate::schema::describetopic::describe_response_body;
use crate::schema::describetopic::lemma_describe_parsed_agree;
use crate::schema::describetopic::DescribeTopicPartitions;
use crate::schema::supports_version;
use vstd::slice::slice_subrange;

verus! {

/// The request shape selected by an API key: one of the two understood
/// codecs, or unknown.
#[derive(Debug, PartialEq, Eq, Structural)]
pub enum Request {
    ApiVersions,
    DescribeTopicsPartitions,
    Unknown,
}

/// Maps an API key to the request shape that handles it: 18 negotiates
/// capabilities, 75 describes topic partitions, anything else is unknown.
pub fn get_request(key: i16) -> (r: Request)
    ensures
        r == (if key == 18 {
            Request::ApiVersions
        } else if key == 75 {
            Request::DescribeTopicsPartitions
        } else {
            Request::Unknown
        }),
{
    match key {
        18 => Request::ApiVersions,
        75 => Request::DescribeTopicsPartitions,
        _ => Request::Unknown,
    }
}

/// Runs one request cycle over the raw frame `buf` for the already-decoded
/// header `req`, against the supplied supported-version table.
///
/// A capability-negotiation request is answered from the table; a
/// topic-partition description request is answered with one descriptor per
/// requested topic; an unknown API key, or any decode failure, produces no
/// response bytes at all.
pub fn dispatch_request(
    req: RequestBase,
    buf: &bytes::BytesMut,
    table: &Vec<SupportedVersionsKey>,
) -> (r: Option<bytes::BytesMut>)
    ensures
        req.api_key != 18 && req.api_key != 75 ==> r is None,
        req.api_key == 18 ==> ({
            let data = bm_bytes(*buf);
            &&& (r is Some <==> (0 <= req.base_size && req.base_size <= data.len()
                && api_version_request_ok(data.skip(req.base_size as int)) && table@.len()
                <= 126))
            &&& (r matches Some(b) ==> bm_bytes(b) == api_versions_response(
                req.correlation_id,
                if supports_version(table@, req.api_key, req.api_version) {
                    0i16
                } else {
                    35i16
                },
                table@,
            ))
        }),
        req.api_key == 75 ==> ({
            let data = bm_bytes(*buf);
            let body = data.skip(req.base_size + 1);
            &&& (r is Some <==> (0 <= req.base_size && req.base_size + 1 <= data.len()
                && describe_request_ok(body) && (forall|d: DescribeTopicPartitions|
                #[trigger] describe_request_parsed(req, body, d)
                    ==> d.topics_array.elements@.len() <= 254 && describe_response_body(
                    req.correlation_id,
                    d.topics_array.elements@,
                    0xff,
                    0,
                ).len() <= i32::MAX)))
            &&& (r matches Some(b) ==> forall|d: DescribeTopicPartitions|
                #[trigger] describe_request_parsed(req, body, d) ==> bm_bytes(b)
                    == describe_response(req.correlation_id, d.topics_array.elements@, 0xff, 0))
        }),
{
    let api_key = get_request(req.api_key);
    if req.base_size < 0 {
        return None;
    }
    let past_base = req.base_size as usize;
    let s = bm_as_slice(buf);

    match api_key {
        Request::ApiVersions => {
            if past_base > s.len() {
                return None;
            }
            let body = slice_subrange(s, past_base, s.len());
            proof {
                assert(body@ =~= bm_bytes(*buf).skip(req.base_size as int));
            }
            let ghost req_snapshot = req;
            let api_versions = match ApiVersionRequest::new(req, body) {
                Ok(api_version) => api_version,
                Err(_) => {
                    return None;
                },
            };
            match api_versions.get_response(table) {
                Ok(val) => Some(val),
                Err(_) => None,
            }
        },
        Request::DescribeTopicsPartitions => {
            if past_base >= s.len() {
                return None;
            }
            let body = slice_subrange(s, past_base + 1, s.len());
            proof {
                assert(body@ =~= bm_bytes(*buf).skip(req.base_size + 1));
            }
            let ghost req_snapshot = req;
            let describe_t_p = match DescribeTopicPartitions::new(req, body) {
                Ok(request) => request,
                Err(_) => {
                    return None;
                },
            };
            match describe_t_p.get_response() {
                Ok(val) => {
                    proof {
                        assert forall|d: DescribeTopicPartitions|
                            #[trigger] describe_request_parsed(
                                req_snapshot,
                                body@,
                                d,
                            ) implies d.topics_array.elements@.len() <= 254
                            && describe_response_body(
                            req_snapshot.correlation_id,
                            d.topics_array.elements@,
                            0xff,
                            0,
                        ).len() <= i32::MAX && bm_bytes(val) == describe_response(
                            req_snapshot.correlation_id,
                            d.topics_array.elements@,
                            0xff,
                            0,
                        ) by {
                            lemma_describe_parsed_agree(req_snapshot, body@, describe_t_p, d);
                        }
                    }
                    Some(val)
                },
                Err(_) => {
                    proof {
                        assert(!(forall|d: DescribeTopicPartitions|
                            #[trigger] describe_request_parsed(req_snapshot, body@, d)
                                ==> d.topics_array.elements@.len() <= 254
                                && describe_response_body(
                                req_snapshot.correlation_id,
                                d.topics_array.elements@,
                                0xff,
                                0,
                            ).len() <= i32::MAX)) by {
                            assert(describe_request_parsed(
                                req_snapshot,
                                body@,
                                describe_t_p,
                            ));
                        }
                    }
                    None
                },
            }
        },
        Request::Unknown => None,
    }
}

} // verus!
