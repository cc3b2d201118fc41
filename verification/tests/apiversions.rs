use broker_wire::protocol::RequestBase;
use broker_wire::schema::apiversions::ApiVersionRequest;
use broker_wire::schema::apiversions::SupportedVersionsKey;
use broker_wire::schema::is_version_supported;
use broker_wire::types::nullstring::NullableString;

fn base_request(api_key: i16, api_version: i16, correlation_id: i32) -> RequestBase {
    RequestBase {
        size: 10,
        api_key,
        api_version,
        correlation_id,
        client_id: NullableString::new_empty(),
        base_size: 14,
    }
}

fn request_body() -> Vec<u8> {
    // Two compact strings: the client software name "abc" and version "1".
    vec![3, b'a', b'b', b'c', 1, b'1']
}

#[test]
fn test_version_supported() {
    let table = vec![
        SupportedVersionsKey { key: 1, min: 1, max: 5 },
        SupportedVersionsKey { key: 2, min: 3, max: 7 },
    ];

    assert!(is_version_supported(&table, 1, 3));
    assert!(!is_version_supported(&table, 1, 6));
    assert!(is_version_supported(&table, 2, 7));
    assert!(!is_version_supported(&table, 2, 2));
}

#[test]
fn test_version_not_supported() {
    let table = vec![
        SupportedVersionsKey { key: 1, min: 1, max: 5 },
        SupportedVersionsKey { key: 2, min: 3, max: 7 },
    ];

    assert!(!is_version_supported(&table, 1, 6));
    assert!(!is_version_supported(&table, 2, 8));
}

#[test]
fn test_version_supported_empty_table() {
    let table: Vec<SupportedVersionsKey> = vec![];
    assert!(!is_version_supported(&table, 18, 1));
}

#[test]
fn test_api_version_request_parses_strings() {
    let body = request_body();
    let req = ApiVersionRequest::new(base_request(18, 1, 7), &body).unwrap();
    assert_eq!(req.client_software_name.value, "abc");
    assert_eq!(req.client_software_name.size_len_bytes, 4);
    assert_eq!(req.client_software_version.value, "1");
    assert_eq!(req.client_software_version.size_len_bytes, 2);
    assert_eq!(req.base_request.api_key, 18);
}

#[test]
fn test_api_version_request_rejects_truncated_body() {
    let body = vec![3, b'a', b'b', b'c', 5, b'1'];
    let result = ApiVersionRequest::new(base_request(18, 1, 7), &body);
    assert!(result.is_err());
}

#[test]
fn test_capability_negotiation_supported() {
    let body = request_body();
    let req = ApiVersionRequest::new(base_request(18, 1, 7), &body).unwrap();
    let table = vec![SupportedVersionsKey { key: 18, min: 0, max: 4 }];

    let response = req.get_response(&table).unwrap();
    let expected: Vec<u8> = vec![
        0, 0, 0, 19, // frame size: 12 + 7 entries bytes
        0, 0, 0, 7, // correlation id
        0, 0, // error code: supported
        2, // entry count plus one
        0, 18, 0, 0, 0, 4, 0, // the entry: key 18, versions 0..=4, tag
        0, 0, 0, 0, // throttle
        0, // tag
    ];
    assert_eq!(&response[..], &expected[..]);
}

#[test]
fn test_capability_negotiation_unsupported() {
    let body = request_body();
    let req = ApiVersionRequest::new(base_request(18, 1, 7), &body).unwrap();
    let table = vec![SupportedVersionsKey { key: 1, min: 0, max: 4 }];

    let response = req.get_response(&table).unwrap();
    // Error code 35 sits right after the frame size and correlation id.
    assert_eq!(&response[8..10], &[0, 35]);
}

#[test]
fn test_capability_negotiation_version_out_of_range() {
    let body = request_body();
    let req = ApiVersionRequest::new(base_request(18, 9, 7), &body).unwrap();
    let table = vec![SupportedVersionsKey { key: 18, min: 0, max: 4 }];

    let response = req.get_response(&table).unwrap();
    assert_eq!(&response[8..10], &[0, 35]);
}

#[test]
fn test_capability_negotiation_table_too_long() {
    let body = request_body();
    let req = ApiVersionRequest::new(base_request(18, 1, 7), &body).unwrap();
    let table = vec![SupportedVersionsKey { key: 1, min: 0, max: 4 }; 127];

    assert!(req.get_response(&table).is_err());
}
