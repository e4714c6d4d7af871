//! The api dispatch table — the single source of truth for which versions
//! of which requests this server answers — and the construction of the
//! response a decoded request is owed. The table is fixed before the first
//! frame is processed and never mutates; callers receive fresh copies.

use crate::protocol::{
    lemma_version_discovery_decodes, spec_parse_request, spec_response_bytes, APIKey,
    APIVersionsResponseBodyV4, ApiVersionsBodyModel, ErrorCode, Request, RequestApiKey,
    RequestModel, Response, ResponseBody, ResponseBodyModel, ResponseHeaderV0, ResponseModel,
};
use crate::wire::{i16_be, i32_be};
use vstd::prelude::*;

verus! {

/// The advertised capabilities: exactly the version-discovery key,
/// versions 0 through 4 inclusive.
pub open spec fn spec_dispatch_table() -> Seq<APIKey> {
    seq![APIKey { api_key: 18, min_version: 0, max_version: 4 }]
}

/// The ordered descriptor list used to answer version discovery.
pub fn all_descriptors() -> (r: Vec<APIKey>)
    ensures
        r@ == spec_dispatch_table(),
{
    let mut v: Vec<APIKey> = Vec::new();
    v.push(APIKey { api_key: 18, min_version: 0, max_version: 4 });
    assert(v@ =~= spec_dispatch_table());
    v
}

/// The inclusive version range this server supports for a request kind,
/// if it advertises one.
pub open spec fn spec_supported_range(key: RequestApiKey) -> Option<(i16, i16)> {
    match key {
        RequestApiKey::ApiVersions => Some((0i16, 4i16)),
        RequestApiKey::Produce => None,
        RequestApiKey::Fetch => None,
    }
}

pub fn supported_range(key: RequestApiKey) -> (r: Option<(i16, i16)>)
    ensures
        r == spec_supported_range(key),
{
    match key {
        RequestApiKey::ApiVersions => Some((0, 4)),
        RequestApiKey::Produce => None,
        RequestApiKey::Fetch => None,
    }
}

/// Every table entry advertises a range that the server in fact supports:
/// the entry's key and bounds agree with `spec_supported_range` for the
/// request kind that key stands for.
pub proof fn lemma_table_advertises_supported_ranges()
    ensures
        forall|i: int|
            0 <= i < spec_dispatch_table().len() ==> {
                let d = #[trigger] spec_dispatch_table()[i];
                exists|k: RequestApiKey|
                    k.spec_code() == d.api_key && spec_supported_range(k) == Some(
                        (d.min_version, d.max_version),
                    )
            },
{
    assert forall|i: int| 0 <= i < spec_dispatch_table().len() implies {
        let d = #[trigger] spec_dispatch_table()[i];
        exists|k: RequestApiKey|
            k.spec_code() == d.api_key && spec_supported_range(k) == Some(
                (d.min_version, d.max_version),
            )
    } by {
        let d = spec_dispatch_table()[i];
        assert(RequestApiKey::ApiVersions.spec_code() == d.api_key && spec_supported_range(
            RequestApiKey::ApiVersions,
        ) == Some((d.min_version, d.max_version)));
    }
}

/// The response a decoded request is owed. The correlation id is echoed
/// unchanged. Version discovery is answered with the full descriptor list
/// whatever the declared version; a version outside 0 through 4 carries
/// `UnsupportedVersion` instead of `NoError`. Other recognized keys get
/// the empty placeholder body.
pub open spec fn spec_response_for(req: RequestModel, throttle_time_ms: i32) -> ResponseModel {
    ResponseModel {
        correlation_id: req.header.correlation_id,
        body: match req.header.request_api_key {
            RequestApiKey::Produce => ResponseBodyModel::Empty,
            RequestApiKey::Fetch => ResponseBodyModel::Empty,
            RequestApiKey::ApiVersions => ResponseBodyModel::ApiVersions(
                ApiVersionsBodyModel {
                    error_code: if req.header.request_api_version < 0
                        || req.header.request_api_version > 4 {
                        ErrorCode::UnsupportedVersion
                    } else {
                        ErrorCode::NoError
                    },
                    api_keys: spec_dispatch_table(),
                    throttle_time_ms,
                },
            ),
        },
    }
}

/// Builds the response for a decoded request. The result is well formed
/// and encodable; its error code is a wire code, never the local sentinel.
pub fn build_response(req: &Request, throttle_time_ms: i32) -> (r: Response)
    requires
        throttle_time_ms >= 0,
    ensures
        r@ == spec_response_for(req@, throttle_time_ms),
        r@.wf(),
{
    let header = ResponseHeaderV0 { correlation_id: req.header.correlation_id };
    let body = match req.header.request_api_key {
        RequestApiKey::Produce => ResponseBody::Empty,
        RequestApiKey::Fetch => ResponseBody::Empty,
        RequestApiKey::ApiVersions => {
            let error_code = if req.header.request_api_version < 0
                || req.header.request_api_version > 4 {
                ErrorCode::UnsupportedVersion
            } else {
                ErrorCode::NoError
            };
            ResponseBody::APIVersionsResponseBodyV4(
                APIVersionsResponseBodyV4 {
                    error_code,
                    api_keys: all_descriptors(),
                    throttle_time_ms,
                },
            )
        },
    };
    Response { header, body }
}

/// The complete service step for one frame: decode the request and
/// encode the response it is owed. `None` when the frame is malformed;
/// the caller then closes the connection with no bytes written.
pub fn handle_frame(data: &[u8], throttle_time_ms: i32) -> (r: Option<Vec<u8>>)
    requires
        throttle_time_ms >= 0,
    ensures
        spec_parse_request(data@) matches Ok(req) ==> ({
            &&& r matches Some(out)
            &&& out@ == spec_response_bytes(spec_response_for(req, throttle_time_ms))
        }),
        spec_parse_request(data@) is Err ==> r is None,
{
    match Request::parse(data) {
        Ok(req) => {
            let resp = build_response(&req, throttle_time_ms);
            let mut out: Vec<u8> = Vec::new();
            resp.write(&mut out);
            Some(out)
        },
        Err(_) => None,
    }
}

/// For every version inside the range the dispatch table advertises for
/// version discovery, the version-discovery response carries `NoError`
/// and the full descriptor list.
pub proof fn lemma_version_in_range_no_error(
    req: RequestModel,
    min: i16,
    max: i16,
    throttle_time_ms: i32,
)
    requires
        req.header.request_api_key == RequestApiKey::ApiVersions,
        spec_supported_range(RequestApiKey::ApiVersions) == Some((min, max)),
        min <= req.header.request_api_version <= max,
    ensures
        spec_response_for(req, throttle_time_ms).body == ResponseBodyModel::ApiVersions(
            ApiVersionsBodyModel {
                error_code: ErrorCode::NoError,
                api_keys: spec_dispatch_table(),
                throttle_time_ms,
            },
        ),
{
}

/// For every version outside the advertised range, the version-discovery
/// response carries `UnsupportedVersion`, and its descriptor list is
/// non-empty and identical to the in-range case: the client still learns
/// the supported range.
pub proof fn lemma_version_out_of_range_unsupported(req: RequestModel, throttle_time_ms: i32)
    requires
        req.header.request_api_key == RequestApiKey::ApiVersions,
        req.header.request_api_version < 0 || req.header.request_api_version > 4,
    ensures
        spec_response_for(req, throttle_time_ms).body matches ResponseBodyModel::ApiVersions(b)
            && b.error_code == ErrorCode::UnsupportedVersion && b.api_keys
            == spec_dispatch_table() && b.api_keys.len() > 0,
{
}

/// End to end: for every version inside the range the table advertises
/// for version discovery, a version-discovery frame (with absent client
/// id) decodes successfully, and the response it is owed echoes the
/// correlation id and carries `NoError` with the full descriptor list.
pub proof fn lemma_version_discovery_in_range_end_to_end(
    api_version: i16,
    correlation_id: i32,
    min: i16,
    max: i16,
    throttle_time_ms: i32,
)
    requires
        spec_supported_range(RequestApiKey::ApiVersions) == Some((min, max)),
        min <= api_version <= max,
    ensures
        ({
            let s = i32_be(10) + i16_be(18) + i16_be(api_version) + i32_be(correlation_id)
                + i16_be(-1i16);
            &&& spec_parse_request(s) matches Ok(req)
            &&& spec_response_for(req, throttle_time_ms).correlation_id == correlation_id
            &&& spec_response_for(req, throttle_time_ms).body matches ResponseBodyModel::ApiVersions(b)
            &&& b.error_code == ErrorCode::NoError
            &&& b.api_keys == spec_dispatch_table()
        }),
{
    lemma_version_discovery_decodes(api_version, correlation_id);
}

/// End to end: for every version outside 0 through 4, the same frame
/// still decodes, and the response carries `UnsupportedVersion` with a
/// descriptor list that is non-empty and identical to the in-range case,
/// so a probing client still learns the supported range.
pub proof fn lemma_version_discovery_out_of_range_end_to_end(
    api_version: i16,
    correlation_id: i32,
    throttle_time_ms: i32,
)
    requires
        api_version < 0 || api_version > 4,
    ensures
        ({
            let s = i32_be(10) + i16_be(18) + i16_be(api_version) + i32_be(correlation_id)
                + i16_be(-1i16);
            &&& spec_parse_request(s) matches Ok(req)
            &&& spec_response_for(req, throttle_time_ms).correlation_id == correlation_id
            &&& spec_response_for(req, throttle_time_ms).body matches ResponseBodyModel::ApiVersions(b)
            &&& b.error_code == ErrorCode::UnsupportedVersion
            &&& b.api_keys == spec_dispatch_table()
            &&& b.api_keys.len() > 0
        }),
{
    lemma_version_discovery_decodes(api_version, correlation_id);
}

} // verus!
