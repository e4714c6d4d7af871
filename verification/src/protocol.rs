//! Request decoding and response encoding for the length-prefixed RPC
//! protocol. A request frame is a 4-byte big-endian length followed by a
//! header (api key, api version, correlation id, nullable client id) and a
//! body dispatched by api key. A response frame is a 4-byte length, the
//! echoed correlation id, and a body; the version-discovery body carries an
//! error code, a compact array of api-key descriptors, a throttle hint and
//! tagged-field terminators. Every parser and writer is proved against a
//! spec-level decoder or encoder, and decoding an encoded response is
//! proved to give the original value back.

use crate::codec::{
    put_i16, put_i32, put_i8, put_tag_buffer, read_i16, read_i32, read_i8, parse_nullable_string,
    spec_parse_nullable_string, spec_read_i16, spec_read_i32, spec_read_i8, tag_buffer_bytes,
    DecodeError,
};
use crate::wire::{i16_be, i32_be, lemma_i16_be_round, lemma_i32_be_round};
use vstd::prelude::*;

verus! {

/// Identifiers of the request kinds this server recognizes.
#[derive(Debug, Eq, PartialEq, Copy, Clone, Structural)]
pub enum RequestApiKey {
    Produce,
    Fetch,
    ApiVersions,
}

impl RequestApiKey {
    /// The numeric key that stands for this request kind on the wire.
    pub open spec fn spec_code(self) -> i16 {
        match self {
            RequestApiKey::Produce => 0,
            RequestApiKey::Fetch => 1,
            RequestApiKey::ApiVersions => 18,
        }
    }

    /// The request kind a raw numeric key stands for, if any.
    pub open spec fn spec_from_code(value: i16) -> Option<RequestApiKey> {
        if value == 0 {
            Some(RequestApiKey::Produce)
        } else if value == 1 {
            Some(RequestApiKey::Fetch)
        } else if value == 18 {
            Some(RequestApiKey::ApiVersions)
        } else {
            None
        }
    }

    pub fn code(self) -> (r: i16)
        ensures
            r == self.spec_code(),
    {
        match self {
            RequestApiKey::Produce => 0,
            RequestApiKey::Fetch => 1,
            RequestApiKey::ApiVersions => 18,
        }
    }

    /// Total mapping from raw wire value to request kind; a value outside
    /// the known set fails with `UnknownApiKey` carrying that value.
    pub fn try_from(value: i16) -> (r: Result<Self, DecodeError>)
        ensures
            Self::spec_from_code(value) matches Some(k) ==> r == Ok::<RequestApiKey, DecodeError>(
                k,
            ),
            Self::spec_from_code(value) is None ==> r == Err::<RequestApiKey, DecodeError>(
                DecodeError::UnknownApiKey(value),
            ),
    {
        match value {
            0 => Ok(RequestApiKey::Produce),
            1 => Ok(RequestApiKey::Fetch),
            18 => Ok(RequestApiKey::ApiVersions),
            _ => Err(DecodeError::UnknownApiKey(value)),
        }
    }
}

/// The closed set of error codes a response can carry. `UnknownApiKey` is a
/// local sentinel, never transmitted on the wire by itself.
#[derive(Debug, Copy, Clone, PartialEq, Eq, Structural)]
pub enum ErrorCode {
    NoError,
    UnsupportedVersion,
    UnknownApiKey,
}

impl ErrorCode {
    /// The numeric code written to the wire for this variant.
    pub open spec fn spec_code(self) -> i16 {
        match self {
            ErrorCode::NoError => 0,
            ErrorCode::UnsupportedVersion => 35,
            ErrorCode::UnknownApiKey => -1i16,
        }
    }

    /// The wire-transmittable variant a raw code stands for, if any.
    pub open spec fn spec_from_code(value: i16) -> Option<ErrorCode> {
        if value == 0 {
            Some(ErrorCode::NoError)
        } else if value == 35 {
            Some(ErrorCode::UnsupportedVersion)
        } else {
            None
        }
    }

    /// Whether this variant may stand in an encoded response.
    pub open spec fn is_wire_code(self) -> bool {
        self is NoError || self is UnsupportedVersion
    }

    pub fn code(self) -> (r: i16)
        ensures
            r == self.spec_code(),
    {
        match self {
            ErrorCode::NoError => 0,
            ErrorCode::UnsupportedVersion => 35,
            ErrorCode::UnknownApiKey => -1,
        }
    }

    pub fn from_code(value: i16) -> (r: Option<ErrorCode>)
        ensures
            r == Self::spec_from_code(value),
    {
        match value {
            0 => Some(ErrorCode::NoError),
            35 => Some(ErrorCode::UnsupportedVersion),
            _ => None,
        }
    }
}

/// Request bodies, keyed by api key. Only version discovery is exercised
/// end to end in this scope, and its body has no fields; every other
/// recognized key is a recognized-but-unimplemented placeholder.
#[derive(Debug, PartialEq, Eq, Copy, Clone, Structural)]
pub enum RequestBody {
    Empty,
}

impl RequestBody {
    /// Dispatches body parsing by api key. In this scope every recognized
    /// key has the empty placeholder body and no bytes are consumed; the
    /// declared api version is deliberately not validated here, so that an
    /// out-of-range version still decodes and can be answered with a
    /// structured response.
    pub fn parse(request_api_version: i16, request_api_key: RequestApiKey) -> (r: RequestBody)
        ensures
            r == RequestBody::Empty,
    {
        match request_api_key {
            RequestApiKey::Produce => RequestBody::Empty,
            RequestApiKey::Fetch => RequestBody::Empty,
            RequestApiKey::ApiVersions => RequestBody::Empty,
        }
    }
}

/// Decoded request header: api key, declared api version, correlation id,
/// nullable client id (absent reads as the empty string).
#[derive(Debug)]
pub struct RequestHeaderV2 {
    pub request_api_key: RequestApiKey,
    pub request_api_version: i16,
    pub correlation_id: i32,
    pub client_id: String,
}

/// Mathematical model of a request header.
pub struct RequestHeaderModel {
    pub request_api_key: RequestApiKey,
    pub request_api_version: i16,
    pub correlation_id: i32,
    pub client_id: Seq<char>,
}

impl View for RequestHeaderV2 {
    type V = RequestHeaderModel;

    open spec fn view(&self) -> RequestHeaderModel {
        RequestHeaderModel {
            request_api_key: self.request_api_key,
            request_api_version: self.request_api_version,
            correlation_id: self.correlation_id,
            client_id: self.client_id@,
        }
    }
}

/// A decoded request frame: declared size, header, and body.
#[derive(Debug)]
pub struct Request {
    pub message_size: i32,
    pub header: RequestHeaderV2,
    pub body: RequestBody,
}

/// Mathematical model of a request.
pub struct RequestModel {
    pub message_size: i32,
    pub header: RequestHeaderModel,
    pub body: RequestBody,
}

impl View for Request {
    type V = RequestModel;

    open spec fn view(&self) -> RequestModel {
        RequestModel { message_size: self.message_size, header: self.header@, body: self.body }
    }
}

/// The request header at `pos`: api key, api version and correlation id at
/// fixed offsets, then the nullable client id. The raw api key is resolved
/// only after all header fields parse, so a truncated or badly encoded
/// client id is reported before an unknown key.
pub open spec fn spec_parse_header(s: Seq<u8>, pos: int) -> Result<
    (RequestHeaderModel, int),
    DecodeError,
> {
    if pos + 8 > s.len() {
        Err(DecodeError::Truncated)
    } else {
        let key_raw = spec_read_i16(s, pos);
        let version = spec_read_i16(s, pos + 2);
        let corr = spec_read_i32(s, pos + 4);
        match spec_parse_nullable_string(s, pos + 8) {
            Err(e) => Err(e),
            Ok((cid, end)) => match RequestApiKey::spec_from_code(key_raw) {
                None => Err(DecodeError::UnknownApiKey(key_raw)),
                Some(k) => Ok(
                    (
                        RequestHeaderModel {
                            request_api_key: k,
                            request_api_version: version,
                            correlation_id: corr,
                            client_id: cid,
                        },
                        end,
                    ),
                ),
            },
        }
    }
}

impl RequestHeaderV2 {
    /// Parses the fixed header fields in wire order, then the nullable
    /// client id, then resolves the api key.
    pub fn parse(data: &[u8], pos: usize) -> (r: Result<(Self, usize), DecodeError>)
        ensures
            r matches Ok(p) ==> spec_parse_header(data@, pos as int) == Ok::<
                (RequestHeaderModel, int),
                DecodeError,
            >((p.0@, p.1 as int)) && p.1 <= data@.len(),
            r matches Err(e) ==> spec_parse_header(data@, pos as int) == Err::<
                (RequestHeaderModel, int),
                DecodeError,
            >(e),
    {
        let dlen: usize = data.len();
        assert(data@.len() == dlen);
        let (key_raw, pos1) = match read_i16(data, pos) {
            Ok(p) => p,
            Err(e) => {
                return Err(e);
            },
        };
        let (version, pos2) = match read_i16(data, pos1) {
            Ok(p) => p,
            Err(e) => {
                return Err(e);
            },
        };
        let (corr, pos3) = match read_i32(data, pos2) {
            Ok(p) => p,
            Err(e) => {
                return Err(e);
            },
        };
        let (client_id, pos4) = match parse_nullable_string(data, pos3) {
            Ok(p) => p,
            Err(e) => {
                return Err(e);
            },
        };
        let key = match RequestApiKey::try_from(key_raw) {
            Ok(k) => k,
            Err(e) => {
                return Err(e);
            },
        };
        Ok(
            (
                RequestHeaderV2 {
                    request_api_key: key,
                    request_api_version: version,
                    correlation_id: corr,
                    client_id,
                },
                pos4,
            ),
        )
    }
}

/// A whole request frame: a 4-byte big-endian size that must be
/// non-negative and fully present, then the header parsed inside exactly
/// that many bytes. Bytes of the frame beyond the header are ignored in
/// this scope, as is anything after the frame.
pub open spec fn spec_parse_request(s: Seq<u8>) -> Result<RequestModel, DecodeError> {
    if 4 > s.len() {
        Err(DecodeError::Truncated)
    } else {
        let size = spec_read_i32(s, 0);
        if size < 0 || 4 + size > s.len() {
            Err(DecodeError::Truncated)
        } else {
            let frame = s.subrange(4, 4 + size);
            match spec_parse_header(frame, 0) {
                Err(e) => Err(e),
                Ok((h, _end)) => Ok(
                    RequestModel { message_size: size, header: h, body: RequestBody::Empty },
                ),
            }
        }
    }
}

impl Request {
    /// Parses one frame from the start of `data`: the size prefix, then
    /// the header and body from the frame's own bytes.
    pub fn parse(data: &[u8]) -> (r: Result<Self, DecodeError>)
        ensures
            r matches Ok(req) ==> spec_parse_request(data@) == Ok::<RequestModel, DecodeError>(
                req@,
            ),
            r matches Err(e) ==> spec_parse_request(data@) == Err::<RequestModel, DecodeError>(e),
    {
        let dlen: usize = data.len();
        let (size, _pos1) = match read_i32(data, 0) {
            Ok(p) => p,
            Err(e) => {
                return Err(e);
            },
        };
        if size < 0 {
            return Err(DecodeError::Truncated);
        }
        let n = size as usize;
        if n > dlen - 4 {
            return Err(DecodeError::Truncated);
        }
        let mut frame: Vec<u8> = Vec::new();
        let mut i: usize = 0;
        while i < n
            invariant
                i <= n,
                4 + n <= data@.len(),
                data@.len() <= usize::MAX,
                frame@ =~= data@.subrange(4, 4 + i as int),
            decreases n - i,
        {
            frame.push(data[4 + i]);
            i = i + 1;
            assert(frame@ =~= data@.subrange(4, 4 + i as int));
        }
        let (header, _end) = match RequestHeaderV2::parse(frame.as_slice(), 0) {
            Ok(p) => p,
            Err(e) => {
                return Err(e);
            },
        };
        let body = RequestBody::parse(header.request_api_version, header.request_api_key);
        Ok(Request { message_size: size, header, body })
    }
}

/// Response header: the correlation id echoed from the request.
#[derive(Debug)]
pub struct ResponseHeaderV0 {
    pub correlation_id: i32,
}

/// One advertised capability: an api key with the inclusive version range
/// the server supports for it.
#[derive(Debug, PartialEq, Eq, Copy, Clone, Structural)]
pub struct APIKey {
    pub api_key: i16,
    pub min_version: i16,
    pub max_version: i16,
}

/// Version-discovery response body: error code, the advertised
/// capabilities, and a throttle hint.
#[derive(Debug)]
pub struct APIVersionsResponseBodyV4 {
    pub error_code: ErrorCode,
    pub api_keys: Vec<APIKey>,
    pub throttle_time_ms: i32,
}

/// Mathematical model of a version-discovery response body.
pub struct ApiVersionsBodyModel {
    pub error_code: ErrorCode,
    pub api_keys: Seq<APIKey>,
    pub throttle_time_ms: i32,
}

impl View for APIVersionsResponseBodyV4 {
    type V = ApiVersionsBodyModel;

    open spec fn view(&self) -> ApiVersionsBodyModel {
        ApiVersionsBodyModel {
            error_code: self.error_code,
            api_keys: self.api_keys@,
            throttle_time_ms: self.throttle_time_ms,
        }
    }
}

/// Response bodies, keyed by the request's api key.
#[derive(Debug)]
pub enum ResponseBody {
    Empty,
    APIVersionsResponseBodyV4(APIVersionsResponseBodyV4),
}

/// Mathematical model of a response body.
pub enum ResponseBodyModel {
    Empty,
    ApiVersions(ApiVersionsBodyModel),
}

impl View for ResponseBody {
    type V = ResponseBodyModel;

    open spec fn view(&self) -> ResponseBodyModel {
        match self {
            ResponseBody::Empty => ResponseBodyModel::Empty,
            ResponseBody::APIVersionsResponseBodyV4(b) => ResponseBodyModel::ApiVersions(b@),
        }
    }
}

/// A response value: header and body.
#[derive(Debug)]
pub struct Response {
    pub header: ResponseHeaderV0,
    pub body: ResponseBody,
}

/// Mathematical model of a response.
pub struct ResponseModel {
    pub correlation_id: i32,
    pub body: ResponseBodyModel,
}

impl View for Response {
    type V = ResponseModel;

    open spec fn view(&self) -> ResponseModel {
        ResponseModel { correlation_id: self.header.correlation_id, body: self.body@ }
    }
}

impl ResponseBodyModel {
    /// An encodable body: the compact-array count byte holds
    /// count + 1 in a signed byte, so at most 126 descriptors.
    pub open spec fn wf(self) -> bool {
        match self {
            ResponseBodyModel::Empty => true,
            ResponseBodyModel::ApiVersions(b) => b.api_keys.len() <= 126,
        }
    }
}

impl ResponseModel {
    /// An encodable response; invalid values are prevented by
    /// construction, so encoding has no error path.
    pub open spec fn wf(self) -> bool {
        self.body.wf()
    }
}

/// One descriptor on the wire: api key, minimum and maximum supported
/// version, then the entry's tagged-field terminator.
pub open spec fn spec_api_key_bytes(k: APIKey) -> Seq<u8> {
    i16_be(k.api_key) + i16_be(k.min_version) + i16_be(k.max_version) + tag_buffer_bytes()
}

/// The descriptors in order, each with its terminator.
pub open spec fn spec_api_keys_bytes(ks: Seq<APIKey>) -> Seq<u8>
    decreases ks.len(),
{
    if ks.len() == 0 {
        Seq::empty()
    } else {
        spec_api_key_bytes(ks[0]) + spec_api_keys_bytes(ks.drop_first())
    }
}

/// The compact-array count byte: 0 for an empty array, count + 1 otherwise.
pub open spec fn spec_compact_count(n: nat) -> Seq<u8>
    recommends
        n <= 126,
{
    if n == 0 {
        seq![0u8]
    } else {
        seq![(n + 1) as u8]
    }
}

/// Version-discovery body layout, in order: error code, compact array of
/// descriptors, throttle time, final tagged-field terminator.
pub open spec fn spec_api_versions_body_bytes(b: ApiVersionsBodyModel) -> Seq<u8> {
    i16_be(b.error_code.spec_code()) + spec_compact_count(b.api_keys.len()) + spec_api_keys_bytes(
        b.api_keys,
    ) + i32_be(b.throttle_time_ms) + tag_buffer_bytes()
}

/// A response body's bytes; the placeholder body is empty.
pub open spec fn spec_response_body_bytes(b: ResponseBodyModel) -> Seq<u8> {
    match b {
        ResponseBodyModel::Empty => Seq::empty(),
        ResponseBodyModel::ApiVersions(v) => spec_api_versions_body_bytes(v),
    }
}

/// Header and body of a response, without the size prefix.
pub open spec fn spec_response_payload(m: ResponseModel) -> Seq<u8> {
    i32_be(m.correlation_id) + spec_response_body_bytes(m.body)
}

/// A whole response frame: the payload's length as a 4-byte big-endian
/// size (the size excludes itself), then the payload.
pub open spec fn spec_response_bytes(m: ResponseModel) -> Seq<u8> {
    i32_be(spec_response_payload(m).len() as i32) + spec_response_payload(m)
}

/// Each descriptor takes exactly 7 bytes on the wire.
pub proof fn lemma_api_keys_bytes_len(ks: Seq<APIKey>)
    ensures
        spec_api_keys_bytes(ks).len() == 7 * ks.len(),
    decreases ks.len(),
{
    if ks.len() != 0 {
        lemma_api_keys_bytes_len(ks.drop_first());
        lemma_i16_be_round(ks[0].api_key);
        lemma_i16_be_round(ks[0].min_version);
        lemma_i16_be_round(ks[0].max_version);
    }
}

/// Appending one descriptor to a prefix extends its bytes by that
/// descriptor's bytes.
proof fn lemma_api_keys_bytes_snoc(ks: Seq<APIKey>, i: int)
    requires
        0 <= i < ks.len(),
    ensures
        spec_api_keys_bytes(ks.take(i + 1)) == spec_api_keys_bytes(ks.take(i))
            + spec_api_key_bytes(ks[i]),
    decreases i,
{
    if i == 0 {
        assert(ks.take(0) =~= Seq::<APIKey>::empty());
        assert(ks.take(1)[0] == ks[0]);
        assert(ks.take(1).drop_first() =~= Seq::<APIKey>::empty());
        assert(spec_api_keys_bytes(ks.take(1)) =~= spec_api_keys_bytes(ks.take(0))
            + spec_api_key_bytes(ks[0]));
    } else {
        let rest = ks.drop_first();
        lemma_api_keys_bytes_snoc(rest, i - 1);
        assert(ks.take(i + 1)[0] == ks[0]);
        assert(ks.take(i)[0] == ks[0]);
        assert(ks.take(i + 1).drop_first() =~= rest.take(i));
        assert(ks.take(i).drop_first() =~= rest.take(i - 1));
        assert(rest[i - 1] == ks[i]);
        assert(spec_api_keys_bytes(ks.take(i + 1)) =~= spec_api_keys_bytes(ks.take(i))
            + spec_api_key_bytes(ks[i]));
    }
}

impl ResponseHeaderV0 {
    /// Appends the header: the echoed correlation id.
    pub fn write(&self, buf: &mut Vec<u8>)
        ensures
            final(buf)@ == old(buf)@ + i32_be(self.correlation_id),
    {
        put_i32(buf, self.correlation_id);
    }
}

impl APIVersionsResponseBodyV4 {
    /// Appends the version-discovery body in wire order: error code,
    /// compact descriptor array with a terminator after each entry,
    /// throttle time, final terminator.
    pub fn write(&self, buf: &mut Vec<u8>)
        requires
            self@.api_keys.len() <= 126,
        ensures
            final(buf)@ == old(buf)@ + spec_api_versions_body_bytes(self@),
    {
        put_i16(buf, self.error_code.code());
        let count = self.api_keys.len();
        if count == 0 {
            put_i8(buf, 0);
        } else {
            put_i8(buf, (count as i8) + 1);
        }
        assert(buf@ =~= old(buf)@ + i16_be(self.error_code.spec_code()) + spec_compact_count(
            self@.api_keys.len(),
        ) + spec_api_keys_bytes(self@.api_keys.take(0)));
        let mut i: usize = 0;
        while i < count
            invariant
                i <= count,
                count == self@.api_keys.len(),
                self@.api_keys.len() <= 126,
                buf@ =~= old(buf)@ + i16_be(self.error_code.spec_code()) + spec_compact_count(
                    self@.api_keys.len(),
                ) + spec_api_keys_bytes(self@.api_keys.take(i as int)),
            decreases count - i,
        {
            let k = self.api_keys[i];
            put_i16(buf, k.api_key);
            put_i16(buf, k.min_version);
            put_i16(buf, k.max_version);
            put_tag_buffer(buf);
            proof {
                lemma_api_keys_bytes_snoc(self@.api_keys, i as int);
            }
            i = i + 1;
            assert(buf@ =~= old(buf)@ + i16_be(self.error_code.spec_code()) + spec_compact_count(
                self@.api_keys.len(),
            ) + spec_api_keys_bytes(self@.api_keys.take(i as int)));
        }
        assert(self@.api_keys.take(count as int) =~= self@.api_keys);
        put_i32(buf, self.throttle_time_ms);
        put_tag_buffer(buf);
        assert(buf@ =~= old(buf)@ + spec_api_versions_body_bytes(self@));
    }
}

impl ResponseBody {
    /// Appends this body's bytes; the placeholder body appends nothing.
    pub fn write(&self, cur: &mut Vec<u8>)
        requires
            self@.wf(),
        ensures
            final(cur)@ == old(cur)@ + spec_response_body_bytes(self@),
    {
        match self {
            ResponseBody::APIVersionsResponseBodyV4(body) => body.write(cur),
            ResponseBody::Empty => {
                assert(cur@ =~= old(cur)@ + spec_response_body_bytes(self@));
            },
        }
    }
}

impl Response {
    /// Serializes the response into a frame: a 4-byte big-endian size
    /// covering header and body but excluding itself, then the header
    /// bytes, then the body bytes.
    pub fn write(&self, buf: &mut Vec<u8>)
        requires
            self@.wf(),
        ensures
            final(buf)@ == old(buf)@ + spec_response_bytes(self@),
    {
        let mut header_buf: Vec<u8> = Vec::new();
        self.header.write(&mut header_buf);
        let mut body_buf: Vec<u8> = Vec::new();
        self.body.write(&mut body_buf);
        proof {
            lemma_i32_be_round(self.header.correlation_id);
            match self@.body {
                ResponseBodyModel::ApiVersions(b) => {
                    lemma_api_keys_bytes_len(b.api_keys);
                    lemma_i16_be_round(b.error_code.spec_code());
                    lemma_i32_be_round(b.throttle_time_ms);
                },
                ResponseBodyModel::Empty => {},
            }
        }
        let message_size = header_buf.len() + body_buf.len();
        put_i32(buf, message_size as i32);
        buf.append(&mut header_buf);
        buf.append(&mut body_buf);
        assert(buf@ =~= old(buf)@ + spec_response_bytes(self@));
    }
}

/// The `n` descriptors at `pos`: each is six bytes of fields followed by
/// a zero terminator byte.
pub open spec fn spec_parse_api_keys(s: Seq<u8>, pos: int, n: nat) -> Result<
    (Seq<APIKey>, int),
    DecodeError,
>
    decreases n,
{
    if n == 0 {
        Ok((Seq::empty(), pos))
    } else if pos + 7 > s.len() {
        Err(DecodeError::Truncated)
    } else if s[pos + 6] != 0 {
        Err(DecodeError::InvalidEncoding)
    } else {
        let k = APIKey {
            api_key: spec_read_i16(s, pos),
            min_version: spec_read_i16(s, pos + 2),
            max_version: spec_read_i16(s, pos + 4),
        };
        match spec_parse_api_keys(s, pos + 7, (n - 1) as nat) {
            Err(e) => Err(e),
            Ok((rest, end)) => Ok((seq![k] + rest, end)),
        }
    }
}

/// A version-discovery body at `pos`: a wire error code, the compact
/// count byte, the descriptors, the throttle time, a zero terminator.
pub open spec fn spec_parse_api_versions_body(s: Seq<u8>, pos: int) -> Result<
    (ApiVersionsBodyModel, int),
    DecodeError,
> {
    if pos + 3 > s.len() {
        Err(DecodeError::Truncated)
    } else {
        match ErrorCode::spec_from_code(spec_read_i16(s, pos)) {
            None => Err(DecodeError::InvalidEncoding),
            Some(ec) => {
                let c = spec_read_i8(s, pos + 2);
                if c < 0 || c == 1 {
                    Err(DecodeError::InvalidEncoding)
                } else {
                    let n: nat = if c == 0 {
                        0
                    } else {
                        (c - 1) as nat
                    };
                    match spec_parse_api_keys(s, pos + 3, n) {
                        Err(e) => Err(e),
                        Ok((ks, end)) => {
                            if end + 5 > s.len() {
                                Err(DecodeError::Truncated)
                            } else if s[end + 4] != 0 {
                                Err(DecodeError::InvalidEncoding)
                            } else {
                                Ok(
                                    (
                                        ApiVersionsBodyModel {
                                            error_code: ec,
                                            api_keys: ks,
                                            throttle_time_ms: spec_read_i32(s, end),
                                        },
                                        end + 5,
                                    ),
                                )
                            }
                        },
                    }
                }
            },
        }
    }
}

/// A response frame from the start of `s`, symmetric to the encoder: the
/// size prefix, the echoed correlation id, and — when payload bytes
/// follow the header — a version-discovery body. Bytes after the frame
/// are ignored.
pub open spec fn spec_parse_response(s: Seq<u8>) -> Result<ResponseModel, DecodeError> {
    if 4 > s.len() {
        Err(DecodeError::Truncated)
    } else {
        let size = spec_read_i32(s, 0);
        if size < 4 || 4 + size > s.len() {
            Err(DecodeError::Truncated)
        } else {
            let payload = s.subrange(4, 4 + size);
            let corr = spec_read_i32(payload, 0);
            if payload.len() == 4 {
                Ok(ResponseModel { correlation_id: corr, body: ResponseBodyModel::Empty })
            } else {
                match spec_parse_api_versions_body(payload, 4) {
                    Err(e) => Err(e),
                    Ok((b, _end)) => Ok(
                        ResponseModel {
                            correlation_id: corr,
                            body: ResponseBodyModel::ApiVersions(b),
                        },
                    ),
                }
            }
        }
    }
}

/// Parses `n` descriptors at `pos`.
fn parse_api_keys(data: &[u8], pos: usize, n: usize) -> (r: Result<
    (Vec<APIKey>, usize),
    DecodeError,
>)
    ensures
        r matches Ok(p) ==> spec_parse_api_keys(data@, pos as int, n as nat) == Ok::<
            (Seq<APIKey>, int),
            DecodeError,
        >((p.0@, p.1 as int)),
        r matches Err(e) ==> spec_parse_api_keys(data@, pos as int, n as nat) == Err::<
            (Seq<APIKey>, int),
            DecodeError,
        >(e),
    decreases n,
{
    let dlen: usize = data.len();
    assert(data@.len() == dlen);
    if n == 0 {
        return Ok((Vec::new(), pos));
    }
    let (api_key, pos1) = match read_i16(data, pos) {
        Ok(x) => x,
        Err(e) => {
            return Err(e);
        },
    };
    let (min_version, pos2) = match read_i16(data, pos1) {
        Ok(x) => x,
        Err(e) => {
            return Err(e);
        },
    };
    let (max_version, pos3) = match read_i16(data, pos2) {
        Ok(x) => x,
        Err(e) => {
            return Err(e);
        },
    };
    let (tag, pos4) = match read_i8(data, pos3) {
        Ok(x) => x,
        Err(e) => {
            return Err(e);
        },
    };
    if tag != 0 {
        return Err(DecodeError::InvalidEncoding);
    }
    let (mut rest, end) = match parse_api_keys(data, pos4, n - 1) {
        Ok(x) => x,
        Err(e) => {
            return Err(e);
        },
    };
    let mut out: Vec<APIKey> = Vec::new();
    out.push(APIKey { api_key, min_version, max_version });
    out.append(&mut rest);
    Ok((out, end))
}

/// Parses a version-discovery body at `pos`.
fn parse_api_versions_body(data: &[u8], pos: usize) -> (r: Result<
    (APIVersionsResponseBodyV4, usize),
    DecodeError,
>)
    ensures
        r matches Ok(p) ==> spec_parse_api_versions_body(data@, pos as int) == Ok::<
            (ApiVersionsBodyModel, int),
            DecodeError,
        >((p.0@, p.1 as int)),
        r matches Err(e) ==> spec_parse_api_versions_body(data@, pos as int) == Err::<
            (ApiVersionsBodyModel, int),
            DecodeError,
        >(e),
{
    let dlen: usize = data.len();
    assert(data@.len() == dlen);
    let (ec_raw, pos1) = match read_i16(data, pos) {
        Ok(x) => x,
        Err(e) => {
            return Err(e);
        },
    };
    let (c, pos2) = match read_i8(data, pos1) {
        Ok(x) => x,
        Err(e) => {
            return Err(e);
        },
    };
    let ec = match ErrorCode::from_code(ec_raw) {
        Some(x) => x,
        None => {
            return Err(DecodeError::InvalidEncoding);
        },
    };
    if c < 0 || c == 1 {
        return Err(DecodeError::InvalidEncoding);
    }
    let n: usize = if c == 0 {
        0
    } else {
        (c - 1) as usize
    };
    let (ks, pos3) = match parse_api_keys(data, pos2, n) {
        Ok(x) => x,
        Err(e) => {
            return Err(e);
        },
    };
    let (throttle, pos4) = match read_i32(data, pos3) {
        Ok(x) => x,
        Err(e) => {
            return Err(e);
        },
    };
    let (tag, pos5) = match read_i8(data, pos4) {
        Ok(x) => x,
        Err(e) => {
            return Err(e);
        },
    };
    if tag != 0 {
        return Err(DecodeError::InvalidEncoding);
    }
    Ok(
        (
            APIVersionsResponseBodyV4 {
                error_code: ec,
                api_keys: ks,
                throttle_time_ms: throttle,
            },
            pos5,
        ),
    )
}

impl Response {
    /// Parses one response frame from the start of `data`, symmetric to
    /// `write`: the size prefix, the correlation id, and a
    /// version-discovery body when any payload bytes follow the header.
    pub fn parse(data: &[u8]) -> (r: Result<Self, DecodeError>)
        ensures
            r matches Ok(resp) ==> spec_parse_response(data@) == Ok::<ResponseModel, DecodeError>(
                resp@,
            ),
            r matches Err(e) ==> spec_parse_response(data@) == Err::<ResponseModel, DecodeError>(
                e,
            ),
    {
        let dlen: usize = data.len();
        let (size, _pos1) = match read_i32(data, 0) {
            Ok(p) => p,
            Err(e) => {
                return Err(e);
            },
        };
        if size < 4 {
            return Err(DecodeError::Truncated);
        }
        let n = size as usize;
        if n > dlen - 4 {
            return Err(DecodeError::Truncated);
        }
        let mut payload: Vec<u8> = Vec::new();
        let mut i: usize = 0;
        while i < n
            invariant
                i <= n,
                4 + n <= data@.len(),
                data@.len() <= usize::MAX,
                payload@ =~= data@.subrange(4, 4 + i as int),
            decreases n - i,
        {
            payload.push(data[4 + i]);
            i = i + 1;
            assert(payload@ =~= data@.subrange(4, 4 + i as int));
        }
        let (corr, _pos2) = match read_i32(payload.as_slice(), 0) {
            Ok(p) => p,
            Err(e) => {
                return Err(e);
            },
        };
        let header = ResponseHeaderV0 { correlation_id: corr };
        if n == 4 {
            return Ok(Response { header, body: ResponseBody::Empty });
        }
        let (body, _end) = match parse_api_versions_body(payload.as_slice(), 4) {
            Ok(x) => x,
            Err(e) => {
                return Err(e);
            },
        };
        Ok(Response { header, body: ResponseBody::APIVersionsResponseBodyV4(body) })
    }
}

/// Descriptor bytes decode back to the descriptors they encode.
proof fn lemma_parse_api_keys_round(s: Seq<u8>, pos: int, ks: Seq<APIKey>)
    requires
        0 <= pos,
        pos + 7 * ks.len() <= s.len(),
        s.subrange(pos, pos + 7 * ks.len()) == spec_api_keys_bytes(ks),
    ensures
        spec_parse_api_keys(s, pos, ks.len()) == Ok::<(Seq<APIKey>, int), DecodeError>(
            (ks, pos + 7 * ks.len()),
        ),
    decreases ks.len(),
{
    lemma_api_keys_bytes_len(ks);
    if ks.len() == 0 {
        assert(ks =~= Seq::<APIKey>::empty());
    } else {
        let k = ks[0];
        let kb = spec_api_key_bytes(k);
        lemma_i16_be_round(k.api_key);
        lemma_i16_be_round(k.min_version);
        lemma_i16_be_round(k.max_version);
        assert(kb.len() == 7);
        let rest = ks.drop_first();
        lemma_api_keys_bytes_len(rest);
        assert(s.subrange(pos, pos + 7 * ks.len()) == kb + spec_api_keys_bytes(rest));
        assert(kb[0] == i16_be(k.api_key)[0] && kb[1] == i16_be(k.api_key)[1]);
        assert(kb[2] == i16_be(k.min_version)[0] && kb[3] == i16_be(k.min_version)[1]);
        assert(kb[4] == i16_be(k.max_version)[0] && kb[5] == i16_be(k.max_version)[1]);
        assert(kb[6] == tag_buffer_bytes()[0]);
        assert(forall|j: int|
            0 <= j < 7 ==> s[pos + j] == (kb + spec_api_keys_bytes(rest))[j]);
        assert(forall|j: int| 0 <= j < 7 ==> (kb + spec_api_keys_bytes(rest))[j] == kb[j]);
        assert(forall|j: int| 0 <= j < 7 ==> s[pos + j] == kb[j]);
        assert(s.subrange(pos, pos + 2) =~= i16_be(k.api_key));
        assert(s.subrange(pos + 2, pos + 4)[0] == s[pos + 2] && s.subrange(pos + 2, pos + 4)[1]
            == s[pos + 3]);
        assert(s.subrange(pos + 2, pos + 4) =~= i16_be(k.min_version));
        assert(s.subrange(pos + 4, pos + 6)[0] == s[pos + 4] && s.subrange(pos + 4, pos + 6)[1]
            == s[pos + 5]);
        assert(s.subrange(pos + 4, pos + 6) =~= i16_be(k.max_version));
        assert(s[pos + 6] == 0);
        assert(spec_read_i16(s, pos) == k.api_key);
        assert(spec_read_i16(s, pos + 2) == k.min_version);
        assert(spec_read_i16(s, pos + 4) == k.max_version);
        assert forall|j: int| 0 <= j < 7 * rest.len() implies s.subrange(
            pos + 7,
            pos + 7 + 7 * rest.len(),
        )[j] == spec_api_keys_bytes(rest)[j] by {
            assert(s.subrange(pos + 7, pos + 7 + 7 * rest.len())[j] == s[pos + 7 + j]);
            assert(s.subrange(pos, pos + 7 * ks.len())[7 + j] == s[pos + 7 + j]);
            assert((kb + spec_api_keys_bytes(rest))[7 + j] == spec_api_keys_bytes(rest)[j]);
        };
        assert(s.subrange(pos + 7, pos + 7 + 7 * rest.len()) =~= spec_api_keys_bytes(rest));
        lemma_parse_api_keys_round(s, pos + 7, rest);
        assert(seq![k] + rest =~= ks);
        assert(spec_parse_api_keys(s, pos, ks.len()) == Ok::<(Seq<APIKey>, int), DecodeError>(
            (ks, pos + 7 * ks.len()),
        ));
    }
}

/// Decoding an encoded response gives the original value back: the
/// correlation id survives unchanged and the descriptor list keeps its
/// order. Holds of every well-formed response whose error code is a wire
/// code (the local sentinel has no wire representation to decode from).
#[verifier::rlimit(100)]
#[verifier::spinoff_prover]
pub proof fn lemma_response_round_trip(m: ResponseModel)
    requires
        m.wf(),
        m.body matches ResponseBodyModel::ApiVersions(b) ==> b.error_code.is_wire_code(),
    ensures
        spec_parse_response(spec_response_bytes(m)) == Ok::<ResponseModel, DecodeError>(m),
{
    let payload = spec_response_payload(m);
    let s = spec_response_bytes(m);
    lemma_i32_be_round(m.correlation_id);
    match m.body {
        ResponseBodyModel::Empty => {
            assert(payload.len() == 4);
        },
        ResponseBodyModel::ApiVersions(b) => {
            lemma_api_keys_bytes_len(b.api_keys);
            lemma_i16_be_round(b.error_code.spec_code());
            lemma_i32_be_round(b.throttle_time_ms);
            assert(payload.len() == 12 + 7 * b.api_keys.len());
        },
    }
    let plen = payload.len() as int;
    assert(4 <= plen <= 894);
    lemma_i32_be_round(plen as i32);
    assert(s.subrange(0, 4) =~= i32_be(plen as i32));
    assert(spec_read_i32(s, 0) == plen as i32);
    assert(4 + plen == s.len());
    assert(s.subrange(4, 4 + plen) =~= payload);
    assert(payload.subrange(0, 4) =~= i32_be(m.correlation_id));
    assert(spec_read_i32(payload, 0) == m.correlation_id);
    match m.body {
        ResponseBodyModel::Empty => {
        },
        ResponseBodyModel::ApiVersions(b) => {
            let nk = b.api_keys.len() as int;
            assert(payload.subrange(4, 6) =~= i16_be(b.error_code.spec_code()));
            assert(spec_read_i16(payload, 4) == b.error_code.spec_code());
            assert(ErrorCode::spec_from_code(b.error_code.spec_code()) == Some(b.error_code));
            assert(payload.subrange(6, 7) =~= spec_compact_count(b.api_keys.len()));
            assert(payload[6] == spec_compact_count(b.api_keys.len())[0]);
            let c = spec_read_i8(payload, 6);
            if nk == 0 {
                assert(c == 0);
            } else {
                assert(payload[6] == (nk + 1) as u8);
                assert(c == (nk + 1) as i8);
            }
            assert(payload.subrange(7, 7 + 7 * nk) =~= spec_api_keys_bytes(b.api_keys));
            lemma_parse_api_keys_round(payload, 7, b.api_keys);
            let end = 7 + 7 * nk;
            assert(payload.subrange(end, end + 4) =~= i32_be(b.throttle_time_ms));
            assert(spec_read_i32(payload, end) == b.throttle_time_ms);
            assert(payload[end + 4] == 0);
            assert(end + 5 == plen);
            assert(spec_parse_api_versions_body(payload, 4) == Ok::<
                (ApiVersionsBodyModel, int),
                DecodeError,
            >((b, plen)));
        },
    }
}

/// A version-discovery request frame decodes successfully for every
/// declared api version: the version is deliberately not a decode-time
/// check, so a client probing an unsupported version still gets a
/// structured answer rather than a dropped connection. The frame here
/// carries an absent client id.
#[verifier::rlimit(100)]
#[verifier::spinoff_prover]
pub proof fn lemma_version_discovery_decodes(api_version: i16, correlation_id: i32)
    ensures
        ({
            let s = i32_be(10) + i16_be(18) + i16_be(api_version) + i32_be(correlation_id)
                + i16_be(-1i16);
            spec_parse_request(s) == Ok::<RequestModel, DecodeError>(
                RequestModel {
                    message_size: 10,
                    header: RequestHeaderModel {
                        request_api_key: RequestApiKey::ApiVersions,
                        request_api_version: api_version,
                        correlation_id,
                        client_id: Seq::<char>::empty(),
                    },
                    body: RequestBody::Empty,
                },
            )
        }),
{
    let s = i32_be(10) + i16_be(18) + i16_be(api_version) + i32_be(correlation_id) + i16_be(
        -1i16,
    );
    lemma_i32_be_round(10);
    lemma_i16_be_round(18);
    lemma_i16_be_round(api_version);
    lemma_i32_be_round(correlation_id);
    lemma_i16_be_round(-1i16);
    assert(s.len() == 14);
    assert(s.subrange(0, 4) =~= i32_be(10));
    assert(spec_read_i32(s, 0) == 10);
    let frame = s.subrange(4, 14);
    assert(frame =~= i16_be(18) + i16_be(api_version) + i32_be(correlation_id) + i16_be(-1i16));
    assert(frame.subrange(0, 2) =~= i16_be(18));
    assert(frame.subrange(2, 4) =~= i16_be(api_version));
    assert(frame.subrange(4, 8) =~= i32_be(correlation_id));
    assert(frame.subrange(8, 10) =~= i16_be(-1i16));
    assert(spec_read_i16(frame, 0) == 18);
    assert(spec_read_i16(frame, 2) == api_version);
    assert(spec_read_i32(frame, 4) == correlation_id);
    assert(spec_read_i16(frame, 8) == -1i16);
    assert(spec_parse_nullable_string(frame, 8) == Ok::<(Seq<char>, int), DecodeError>(
        (Seq::<char>::empty(), 10),
    ));
}

/// Encoding is deterministic: the frame a response serializes to is a
/// function of the response value alone, so encoding the same value twice
/// gives byte-identical output.
pub proof fn lemma_encode_deterministic(m1: ResponseModel, m2: ResponseModel)
    requires
        m1 == m2,
    ensures
        spec_response_bytes(m1) == spec_response_bytes(m2),
{
}

} // verus!
