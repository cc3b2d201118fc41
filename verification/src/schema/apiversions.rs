//! Capability negotiation: the request carrying the client's software name
//! and version, answered with the table of supported version ranges and an
//! error code that says whether the requested API version is supported.

use vstd::prelude::*;

use crate::ext::bm_as_slice;
use crate::ext::bm_bytes;
use crate::ext::bm_extend;
use crate::ext::bm_len;
use crate::ext::bm_new;
use crate::ext::bm_put_u8;
use crate::protocol::RequestBase;
use crate::rpc::decode::Decode;
use crate::rpc::decode::DecodeError;
use crate::rpc::encode::be16_bytes;
use crate::rpc::encode::be32_bytes;
use crate::rpc::encode::u16_to_be;
use crate::rpc::encode::u32_to_be;
use crate::rpc::encode::Encode;
use crate::schema::is_version_supported;
use crate::schema::supports_version;
use crate::types::compactstring::compact_string_err;
use crate::types::compactstring::compact_string_ok;
use crate::types::compactstring::compact_string_spec;
use crate::types::compactstring::CompactString;
use crate::types::compactstring::CompactValueParseError;
use vstd::slice::slice_subrange;

verus! {

/// One supported version range: an API key and the inclusive interval of
/// versions the server answers for it.
#[derive(Debug, Clone, Copy, PartialEq, Eq, Structural)]
pub struct SupportedVersionsKey {
    pub key: i16,
    pub min: i16,
    pub max: i16,
}

/// The wire form of one supported-version entry: key, minimum and maximum
/// as big-endian 16-bit values, then a tag byte.
pub open spec fn version_entry_bytes(k: SupportedVersionsKey) -> Seq<u8> {
    be16_bytes(k.key as u16) + be16_bytes(k.min as u16) + be16_bytes(k.max as u16) + seq![0u8]
}

/// The wire form of the whole entry list, one entry after another.
pub open spec fn version_entries_bytes(table: Seq<SupportedVersionsKey>) -> Seq<u8>
    decreases table.len(),
{
    if table.len() == 0 {
        Seq::empty()
    } else {
        version_entry_bytes(table[0]) + version_entries_bytes(table.drop_first())
    }
}

/// The wire form of the supported-version table: the entry count plus one
/// as a single byte, then the entries.
pub open spec fn supported_versions_bytes(table: Seq<SupportedVersionsKey>) -> Seq<u8> {
    seq![(table.len() + 1) as u8] + version_entries_bytes(table)
}

proof fn lemma_version_entries_take_push(table: Seq<SupportedVersionsKey>, i: int)
    requires
        0 <= i < table.len(),
    ensures
        version_entries_bytes(table.take(i + 1)) == version_entries_bytes(table.take(i))
            + version_entry_bytes(table[i]),
    decreases i,
{
    if i == 0 {
        assert(table.take(1)[0] == table[0]);
        assert(table.take(1).drop_first() =~= Seq::<SupportedVersionsKey>::empty());
        assert(table.take(0) =~= Seq::<SupportedVersionsKey>::empty());
        assert(version_entries_bytes(table.take(1)) =~= version_entries_bytes(table.take(0))
            + version_entry_bytes(table[0]));
    } else {
        lemma_version_entries_take_push(table.drop_first(), i - 1);
        assert(table.take(i + 1).drop_first() =~= table.drop_first().take(i));
        assert(table.take(i).drop_first() =~= table.drop_first().take(i - 1));
        assert(table.take(i + 1)[0] == table[0] && table.take(i)[0] == table[0]);
        assert(table.drop_first()[i - 1] == table[i]);
        assert(version_entries_bytes(table.take(i + 1)) =~= version_entries_bytes(table.take(i))
            + version_entry_bytes(table[i]));
    }
}

proof fn lemma_version_entries_len(table: Seq<SupportedVersionsKey>)
    ensures
        version_entries_bytes(table).len() == 7 * table.len(),
    decreases table.len(),
{
    if table.len() > 0 {
        lemma_version_entries_len(table.drop_first());
    }
}

/// Builds the wire form of the supported-version table: a count-plus-one
/// byte, then each entry as three big-endian 16-bit fields and a tag byte.
/// Fails exactly when the table is too long for its count to fit the single
/// signed count byte.
pub fn get_supported_versions_bytes(table: &Vec<SupportedVersionsKey>) -> (r: Result<
    bytes::BytesMut,
    DecodeError,
>)
    ensures
        r is Ok <==> table@.len() <= 126,
        r matches Ok(b) ==> bm_bytes(b) == supported_versions_bytes(table@)
            && bm_bytes(b).len() == 1 + 7 * table@.len(),
{
    if table.len() > 126 {
        return Err(
            DecodeError::InvalidBuffer("Too many version entries for one response".to_owned()),
        );
    }

    let mut data_bytes = bm_new();
    let arr_size: u8 = (table.len() + 1) as u8;
    bm_put_u8(&mut data_bytes, arr_size);

    proof {
        assert(table@.take(0) =~= Seq::<SupportedVersionsKey>::empty());
        assert(bm_bytes(data_bytes) =~= seq![(table@.len() + 1) as u8] + version_entries_bytes(
            table@.take(0),
        ));
    }

    let mut i: usize = 0;
    while i < table.len()
        invariant
            i <= table@.len(),
            table@.len() <= 126,
            bm_bytes(data_bytes) == seq![(table@.len() + 1) as u8] + version_entries_bytes(
                table@.take(i as int),
            ),
        decreases table@.len() - i,
    {
        let entry = table[i];
        let key_bytes = u16_to_be(entry.key as u16);
        bm_extend(&mut data_bytes, key_bytes.as_slice());
        let min_bytes = u16_to_be(entry.min as u16);
        bm_extend(&mut data_bytes, min_bytes.as_slice());
        let max_bytes = u16_to_be(entry.max as u16);
        bm_extend(&mut data_bytes, max_bytes.as_slice());
        bm_put_u8(&mut data_bytes, 0);
        proof {
            lemma_version_entries_take_push(table@, i as int);
            assert(bm_bytes(data_bytes) =~= seq![(table@.len() + 1) as u8]
                + version_entries_bytes(table@.take(i as int + 1)));
        }
        i = i + 1;
    }

    proof {
        assert(table@.take(table@.len() as int) =~= table@);
        lemma_version_entries_len(table@);
    }
    Ok(data_bytes)
}

/// A decoded capability-negotiation request: the common header and the
/// client's software name and version, read as two compact strings.
pub struct ApiVersionRequest {
    pub base_request: RequestBase,
    pub client_software_name: CompactString,
    pub client_software_version: CompactString,
}

/// True when `data` holds two well-formed compact strings one after the
/// other: the client software name, then its version.
pub open spec fn api_version_request_ok(data: Seq<u8>) -> bool {
    compact_string_ok(data) && compact_string_ok(
        data.skip(compact_string_spec(data).unwrap().1),
    )
}

/// The capability-negotiation response for correlation id `corr`: its frame
/// size, the correlation id, the error code, the supported-version table, a
/// zero throttle value, and a trailing tag byte.
pub open spec fn api_versions_response(
    corr: i32,
    error_code: i16,
    table: Seq<SupportedVersionsKey>,
) -> Seq<u8> {
    be32_bytes((12 + 7 * table.len()) as u32) + be32_bytes(corr as u32) + be16_bytes(
        error_code as u16,
    ) + supported_versions_bytes(table) + seq![0u8, 0u8, 0u8, 0u8] + seq![0u8]
}

/// Law: capability negotiation answers error code 0 exactly when the table
/// supports the requested version.  In the response for any correlation id
/// and table, the error code stands as the big-endian 16-bit value at bytes
/// 8 and 9, and it is 0 when some table entry covers the requested key and
/// version pair and 35 when none does.
pub proof fn lemma_api_versions_error_code(
    corr: i32,
    key: i16,
    version: i16,
    table: Seq<SupportedVersionsKey>,
)
    ensures
        ({
            let error_code: i16 = if supports_version(table, key, version) {
                0i16
            } else {
                35i16
            };
            let resp = api_versions_response(corr, error_code, table);
            &&& resp.subrange(8, 10) == be16_bytes(error_code as u16)
            &&& (supports_version(table, key, version) <==> error_code == 0)
            &&& (!supports_version(table, key, version) <==> error_code == 35)
        }),
{
    let error_code: i16 = if supports_version(table, key, version) {
        0i16
    } else {
        35i16
    };
    let resp = api_versions_response(corr, error_code, table);
    assert(resp.subrange(8, 10) =~= be16_bytes(error_code as u16));
}

impl ApiVersionRequest {
    /// Decodes a capability-negotiation request body: the client software
    /// name and version as two consecutive compact strings, kept together
    /// with the already-decoded common header.
    pub fn new(base: RequestBase, buf: &[u8]) -> (r: Result<
        ApiVersionRequest,
        CompactValueParseError,
    >)
        ensures
            r is Ok <==> api_version_request_ok(buf@),
            r matches Ok(req) ==> ({
                &&& req.base_request == base
                &&& <CompactString as Decode<CompactString>>::sdecoded(
                    buf@,
                    req.client_software_name,
                )
                &&& <CompactString as Decode<CompactString>>::sdecoded(
                    buf@.skip(compact_string_spec(buf@).unwrap().1),
                    req.client_software_version,
                )
            }),
            r matches Err(e) ==> (if compact_string_ok(buf@) {
                compact_string_err(buf@.skip(compact_string_spec(buf@).unwrap().1), e)
            } else {
                compact_string_err(buf@, e)
            }),
    {
        let buf_len = buf.len();
        let client_software_name = CompactString::new(buf)?;
        proof {
            crate::types::lemma_varint_decode_bounds(buf@, 0, 0);
            assert(buf@.len() == buf_len);
        }
        let rest = slice_subrange(buf, client_software_name.size_len_bytes as usize, buf_len);
        proof {
            assert(rest@ =~= buf@.skip(compact_string_spec(buf@).unwrap().1));
        }
        let client_software_version = CompactString::new(rest)?;
        Ok(ApiVersionRequest { base_request: base, client_software_name, client_software_version })
    }

    /// Assembles the capability-negotiation response against the supplied
    /// supported-version table: error code 0 when the request's API key and
    /// version fall inside some entry's range, 35 otherwise, followed by the
    /// whole table, a zero throttle value and a tag byte.  Fails exactly
    /// when the table is too long for the count byte.
    pub fn get_response(&self, table: &Vec<SupportedVersionsKey>) -> (r: Result<
        bytes::BytesMut,
        DecodeError,
    >)
        ensures
            r is Ok <==> table@.len() <= 126,
            r matches Ok(b) ==> bm_bytes(b) == api_versions_response(
                self.base_request.correlation_id,
                if supports_version(
                    table@,
                    self.base_request.api_key,
                    self.base_request.api_version,
                ) {
                    0i16
                } else {
                    35i16
                },
                table@,
            ),
    {
        let mut response = bm_new();
        let data = get_supported_versions_bytes(table)?;
        let data_len = bm_len(&data);

        let res_size: i32 = (4 + 2 + data_len + 5) as i32;
        let error: i16 = if is_version_supported(
            table,
            self.base_request.api_key,
            self.base_request.api_version,
        ) {
            0
        } else {
            35
        };

        res_size.encode(&mut response);
        self.base_request.correlation_id.encode(&mut response);
        let error_bytes = u16_to_be(error as u16);
        bm_extend(&mut response, error_bytes.as_slice());
        bm_extend(&mut response, bm_as_slice(&data));
        let throttle = u32_to_be(0);
        bm_extend(&mut response, throttle.as_slice());
        bm_put_u8(&mut response, 0);

        proof {
            assert(0u32 >> 24 == 0 && 0u32 >> 16 == 0 && 0u32 >> 8 == 0) by (bit_vector);
            assert(be32_bytes(0u32) =~= seq![0u8, 0u8, 0u8, 0u8]);
            assert(bm_bytes(response) =~= api_versions_response(
                self.base_request.correlation_id,
                error,
                table@,
            ));
        }
        Ok(response)
    }
}

} // verus!
