use wireproto::dispatch::{all_descriptors, build_response, handle_frame, supported_range};
use wireproto::protocol::{
    APIKey, APIVersionsResponseBodyV4, ErrorCode, Request, RequestApiKey, RequestBody, Response,
    ResponseBody, ResponseHeaderV0,
};
use wireproto::codec::DecodeError;

fn version_discovery_request(api_version: i16, correlation_id: i32) -> Vec<u8> {
    let mut bytes: Vec<u8> = Vec::new();
    bytes.extend_from_slice(&[0x00, 0x00, 0x00, 0x0a]);
    bytes.extend_from_slice(&[0x00, 0x12]);
    bytes.extend_from_slice(&api_version.to_be_bytes());
    bytes.extend_from_slice(&correlation_id.to_be_bytes());
    bytes.extend_from_slice(&[0xff, 0xff]);
    bytes
}

#[test]
fn api_key_try_from_known_and_unknown() {
    assert_eq!(RequestApiKey::try_from(0), Ok(RequestApiKey::Produce));
    assert_eq!(RequestApiKey::try_from(1), Ok(RequestApiKey::Fetch));
    assert_eq!(RequestApiKey::try_from(18), Ok(RequestApiKey::ApiVersions));
    assert_eq!(RequestApiKey::try_from(7), Err(DecodeError::UnknownApiKey(7)));
}

#[test]
fn error_code_wire_values() {
    assert_eq!(ErrorCode::NoError.code(), 0);
    assert_eq!(ErrorCode::UnsupportedVersion.code(), 35);
    assert_eq!(ErrorCode::UnknownApiKey.code(), -1);
    assert_eq!(ErrorCode::from_code(0), Some(ErrorCode::NoError));
    assert_eq!(ErrorCode::from_code(35), Some(ErrorCode::UnsupportedVersion));
    assert_eq!(ErrorCode::from_code(1), None);
}

#[test]
fn parse_version_discovery_request() {
    let bytes = version_discovery_request(4, 7);
    let req = Request::parse(&bytes).unwrap();
    assert_eq!(req.message_size, 10);
    assert_eq!(req.header.request_api_key, RequestApiKey::ApiVersions);
    assert_eq!(req.header.request_api_version, 4);
    assert_eq!(req.header.correlation_id, 7);
    assert_eq!(req.header.client_id, "");
    assert_eq!(req.body, RequestBody::Empty);
}

#[test]
fn parse_request_with_client_id() {
    // size 19: header fields, then client id "kafka-cli" of length 9
    let bytes: Vec<u8> = vec![
        0x00, 0x00, 0x00, 0x13, 0x00, 0x12, 0x00, 0x04, 0x00, 0x00, 0x00, 0x07, 0x00, 0x09, 0x6b,
        0x61, 0x66, 0x6b, 0x61, 0x2d, 0x63, 0x6c, 0x69,
    ];
    let req = Request::parse(&bytes).unwrap();
    assert_eq!(req.header.client_id, "kafka-cli");
    assert_eq!(req.header.correlation_id, 7);
}

#[test]
fn parse_truncated_frame_fails() {
    // declared size 0x17 = 23, but only 19 frame bytes follow
    let bytes: Vec<u8> = vec![
        0x00, 0x00, 0x00, 0x17, 0x00, 0x12, 0x00, 0x04, 0x00, 0x00, 0x00, 0x07, 0x00, 0x09, 0x6b,
        0x61, 0x66, 0x6b, 0x61, 0x2d, 0x63, 0x6c, 0x69,
    ];
    assert_eq!(Request::parse(&bytes).map(|_| ()), Err(DecodeError::Truncated));
}

#[test]
fn parse_truncated_client_id_fails() {
    // size 11: client id declares 9 bytes but the frame holds only 1
    let bytes: Vec<u8> = vec![
        0x00, 0x00, 0x00, 0x0b, 0x00, 0x12, 0x00, 0x04, 0x00, 0x00, 0x00, 0x07, 0x00, 0x09, 0x6b,
    ];
    assert_eq!(Request::parse(&bytes).map(|_| ()), Err(DecodeError::Truncated));
}

#[test]
fn parse_invalid_utf8_client_id_fails() {
    let bytes: Vec<u8> = vec![
        0x00, 0x00, 0x00, 0x0b, 0x00, 0x12, 0x00, 0x04, 0x00, 0x00, 0x00, 0x07, 0x00, 0x01, 0xff,
    ];
    assert_eq!(Request::parse(&bytes).map(|_| ()), Err(DecodeError::InvalidEncoding));
}

#[test]
fn parse_unknown_api_key_fails() {
    // api key 999 = 0x03e7
    let bytes: Vec<u8> = vec![
        0x00, 0x00, 0x00, 0x0a, 0x03, 0xe7, 0x00, 0x04, 0x00, 0x00, 0x00, 0x07, 0xff, 0xff,
    ];
    assert_eq!(Request::parse(&bytes).map(|_| ()), Err(DecodeError::UnknownApiKey(999)));
}

#[test]
fn parse_short_prefix_fails() {
    let bytes: Vec<u8> = vec![0x00, 0x00];
    assert_eq!(Request::parse(&bytes).map(|_| ()), Err(DecodeError::Truncated));
}

#[test]
fn dispatch_table_contents() {
    let table = all_descriptors();
    assert_eq!(table, vec![APIKey { api_key: 18, min_version: 0, max_version: 4 }]);
    assert_eq!(supported_range(RequestApiKey::ApiVersions), Some((0, 4)));
    assert_eq!(supported_range(RequestApiKey::Produce), None);
    assert_eq!(supported_range(RequestApiKey::Fetch), None);
}

#[test]
fn in_range_versions_get_no_error() {
    for v in 0..=4 {
        let bytes = version_discovery_request(v, 7);
        let req = Request::parse(&bytes).unwrap();
        let resp = build_response(&req, 0);
        assert_eq!(resp.header.correlation_id, 7);
        match resp.body {
            ResponseBody::APIVersionsResponseBodyV4(b) => {
                assert_eq!(b.error_code, ErrorCode::NoError);
                assert_eq!(b.api_keys, vec![APIKey { api_key: 18, min_version: 0, max_version: 4 }]);
            },
            ResponseBody::Empty => panic!("expected a version-discovery body"),
        }
    }
}

#[test]
fn out_of_range_versions_get_unsupported_version() {
    for v in [-1, 5, 100, i16::MIN, i16::MAX] {
        let bytes = version_discovery_request(v, 7);
        let req = Request::parse(&bytes).unwrap();
        let resp = build_response(&req, 0);
        match resp.body {
            ResponseBody::APIVersionsResponseBodyV4(b) => {
                assert_eq!(b.error_code, ErrorCode::UnsupportedVersion);
                // the descriptor list is the same as in the in-range case
                assert_eq!(b.api_keys, vec![APIKey { api_key: 18, min_version: 0, max_version: 4 }]);
            },
            ResponseBody::Empty => panic!("expected a version-discovery body"),
        }
    }
}

#[test]
fn encode_version_discovery_response_exact_bytes() {
    let bytes = version_discovery_request(4, 7);
    let req = Request::parse(&bytes).unwrap();
    let resp = build_response(&req, 0);
    let mut out: Vec<u8> = Vec::new();
    resp.write(&mut out);
    let expected: Vec<u8> = vec![
        0x00, 0x00, 0x00, 0x13, // size: 19 payload bytes
        0x00, 0x00, 0x00, 0x07, // correlation id 7
        0x00, 0x00, // error code 0
        0x02, // compact array count byte: 1 entry
        0x00, 0x12, 0x00, 0x00, 0x00, 0x04, 0x00, // {18, 0, 4} + tag buffer
        0x00, 0x00, 0x00, 0x00, // throttle time 0
        0x00, // final tag buffer
    ];
    assert_eq!(out, expected);
}

#[test]
fn unsupported_version_response_exact_bytes() {
    let bytes = version_discovery_request(5, 7);
    let req = Request::parse(&bytes).unwrap();
    let resp = build_response(&req, 0);
    let mut out: Vec<u8> = Vec::new();
    resp.write(&mut out);
    // identical to the in-range frame but for the error code 35 = 0x23
    let expected: Vec<u8> = vec![
        0x00, 0x00, 0x00, 0x13, 0x00, 0x00, 0x00, 0x07, 0x00, 0x23, 0x02, 0x00, 0x12, 0x00, 0x00,
        0x00, 0x04, 0x00, 0x00, 0x00, 0x00, 0x00, 0x00,
    ];
    assert_eq!(out, expected);
}

#[test]
fn empty_body_response_bytes() {
    let resp = Response {
        header: ResponseHeaderV0 { correlation_id: -2 },
        body: ResponseBody::Empty,
    };
    let mut out: Vec<u8> = Vec::new();
    resp.write(&mut out);
    assert_eq!(out, vec![0x00, 0x00, 0x00, 0x04, 0xff, 0xff, 0xff, 0xfe]);
}

#[test]
fn compact_array_count_bytes() {
    let entry = APIKey { api_key: 18, min_version: 0, max_version: 4 };
    for (n, count_byte) in [(0usize, 0x00u8), (1, 0x02), (3, 0x04)] {
        let body = APIVersionsResponseBodyV4 {
            error_code: ErrorCode::NoError,
            api_keys: vec![entry; n],
            throttle_time_ms: 0,
        };
        let mut out: Vec<u8> = Vec::new();
        body.write(&mut out);
        // error code takes the first two bytes, the count byte follows
        assert_eq!(out[2], count_byte);
        assert_eq!(out.len(), 2 + 1 + 7 * n + 4 + 1);
    }
}

#[test]
fn encoding_twice_is_byte_identical() {
    let bytes = version_discovery_request(3, 42);
    let req = Request::parse(&bytes).unwrap();
    let resp = build_response(&req, 420);
    let mut first: Vec<u8> = Vec::new();
    resp.write(&mut first);
    let mut second: Vec<u8> = Vec::new();
    resp.write(&mut second);
    assert_eq!(first, second);
}

#[test]
fn response_round_trip_preserves_values() {
    let resp = Response {
        header: ResponseHeaderV0 { correlation_id: 1234567 },
        body: ResponseBody::APIVersionsResponseBodyV4(APIVersionsResponseBodyV4 {
            error_code: ErrorCode::UnsupportedVersion,
            api_keys: vec![
                APIKey { api_key: 18, min_version: 0, max_version: 4 },
                APIKey { api_key: 1, min_version: 2, max_version: 13 },
                APIKey { api_key: 0, min_version: 0, max_version: 9 },
            ],
            throttle_time_ms: 420,
        }),
    };
    let mut out: Vec<u8> = Vec::new();
    resp.write(&mut out);
    let parsed = Response::parse(&out).unwrap();
    assert_eq!(parsed.header.correlation_id, 1234567);
    match parsed.body {
        ResponseBody::APIVersionsResponseBodyV4(b) => {
            assert_eq!(b.error_code, ErrorCode::UnsupportedVersion);
            assert_eq!(
                b.api_keys,
                vec![
                    APIKey { api_key: 18, min_version: 0, max_version: 4 },
                    APIKey { api_key: 1, min_version: 2, max_version: 13 },
                    APIKey { api_key: 0, min_version: 0, max_version: 9 },
                ]
            );
            assert_eq!(b.throttle_time_ms, 420);
        },
        ResponseBody::Empty => panic!("expected a version-discovery body"),
    }
}

#[test]
fn empty_body_response_round_trip() {
    let resp = Response {
        header: ResponseHeaderV0 { correlation_id: 99 },
        body: ResponseBody::Empty,
    };
    let mut out: Vec<u8> = Vec::new();
    resp.write(&mut out);
    let parsed = Response::parse(&out).unwrap();
    assert_eq!(parsed.header.correlation_id, 99);
    assert!(matches!(parsed.body, ResponseBody::Empty));
}

#[test]
fn empty_descriptor_list_round_trip() {
    let resp = Response {
        header: ResponseHeaderV0 { correlation_id: 0 },
        body: ResponseBody::APIVersionsResponseBodyV4(APIVersionsResponseBodyV4 {
            error_code: ErrorCode::NoError,
            api_keys: Vec::new(),
            throttle_time_ms: 0,
        }),
    };
    let mut out: Vec<u8> = Vec::new();
    resp.write(&mut out);
    let parsed = Response::parse(&out).unwrap();
    match parsed.body {
        ResponseBody::APIVersionsResponseBodyV4(b) => {
            assert_eq!(b.error_code, ErrorCode::NoError);
            assert_eq!(b.api_keys, Vec::new());
            assert_eq!(b.throttle_time_ms, 0);
        },
        ResponseBody::Empty => panic!("expected a version-discovery body"),
    }
}

#[test]
fn largest_descriptor_list_encodes() {
    let entry = APIKey { api_key: 18, min_version: 0, max_version: 4 };
    let resp = Response {
        header: ResponseHeaderV0 { correlation_id: 1 },
        body: ResponseBody::APIVersionsResponseBodyV4(APIVersionsResponseBodyV4 {
            error_code: ErrorCode::NoError,
            api_keys: vec![entry; 126],
            throttle_time_ms: 0,
        }),
    };
    let mut out: Vec<u8> = Vec::new();
    resp.write(&mut out);
    // count byte holds 127, the largest compact count a signed byte takes
    assert_eq!(out[10], 127);
    assert_eq!(out.len(), 4 + 4 + 2 + 1 + 7 * 126 + 4 + 1);
    let parsed = Response::parse(&out).unwrap();
    match parsed.body {
        ResponseBody::APIVersionsResponseBodyV4(b) => assert_eq!(b.api_keys.len(), 126),
        ResponseBody::Empty => panic!("expected a version-discovery body"),
    }
}

#[test]
fn handle_frame_answers_version_discovery() {
    let bytes = version_discovery_request(4, 7);
    let out = handle_frame(&bytes, 0).unwrap();
    let expected: Vec<u8> = vec![
        0x00, 0x00, 0x00, 0x13, 0x00, 0x00, 0x00, 0x07, 0x00, 0x00, 0x02, 0x00, 0x12, 0x00, 0x00,
        0x00, 0x04, 0x00, 0x00, 0x00, 0x00, 0x00, 0x00,
    ];
    assert_eq!(out, expected);
}

#[test]
fn handle_frame_rejects_malformed_frame() {
    // unknown api key 999: no response bytes at all
    let bytes: Vec<u8> = vec![
        0x00, 0x00, 0x00, 0x0a, 0x03, 0xe7, 0x00, 0x04, 0x00, 0x00, 0x00, 0x07, 0xff, 0xff,
    ];
    assert!(handle_frame(&bytes, 0).is_none());
    assert!(handle_frame(&[0x00], 0).is_none());
}

#[test]
fn response_parse_rejects_unknown_error_code() {
    let bytes = version_discovery_request(4, 7);
    let req = Request::parse(&bytes).unwrap();
    let resp = build_response(&req, 0);
    let mut out: Vec<u8> = Vec::new();
    resp.write(&mut out);
    // error code 1 is outside the closed set of wire codes
    out[8] = 0x00;
    out[9] = 0x01;
    assert_eq!(Response::parse(&out).map(|_| ()), Err(DecodeError::InvalidEncoding));
}

#[test]
fn response_parse_rejects_bad_tag_byte() {
    let bytes = version_discovery_request(4, 7);
    let req = Request::parse(&bytes).unwrap();
    let resp = build_response(&req, 0);
    let mut out: Vec<u8> = Vec::new();
    resp.write(&mut out);
    let last = out.len() - 1;
    out[last] = 0x01;
    assert_eq!(Response::parse(&out).map(|_| ()), Err(DecodeError::InvalidEncoding));
}
