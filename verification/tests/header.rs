use bytes::BytesMut;

use broker_wire::protocol::RequestBase;

// Test case 1: Normal valid buffer with all fields correctly parsed.
#[test]
fn test_valid_request_base() {
    let buf = BytesMut::from(
        &[
            0, 0, 0, 10, // size (i32)
            0, 1, // api_key (i16)
            0, 1, // api_version (i16)
            0, 0, 0, 5, // correlation_id (i32)
            0, 5, // client_id_size (i16)
            72, 101, 108, 108, 111, // client_id ("Hello" in UTF-8 bytes)
        ][..],
    );

    let result = RequestBase::new(&buf);
    assert!(result.is_ok());

    let request_base = result.unwrap();
    assert_eq!(request_base.size, 10);
    assert_eq!(request_base.api_key, 1);
    assert_eq!(request_base.api_version, 1);
    assert_eq!(request_base.correlation_id, 5);
    assert_eq!(request_base.base_size, 19);
    assert_eq!(request_base.client_id.value, "Hello");
    assert_eq!(request_base.client_id.length, 5);
}

// Test case 2: Buffer is too small to parse the required fields (less than 14 bytes).
#[test]
fn mod_test_buffer_too_small() {
    let buf = BytesMut::from(&[0u8, 0u8, 0u8, 10u8, 0u8, 1u8][..]); // Only 6 bytes
    let result = RequestBase::new(&buf);
    assert!(result.is_err());
}

// Test case 3: Buffer with invalid client_id size that cannot be parsed.
#[test]
fn test_invalid_client_id_size() {
    let buf = BytesMut::from(
        &[
            0, 0, 0, 10, // size (i32)
            0, 1, // api_key (i16)
            0, 1, // api_version (i16)
            0, 0, 0, 5, // correlation_id (i32)
            0, 3, // client_id_size (i16)
            72, 101, 0xFF, // Invalid UTF-8 byte in client_id
        ][..],
    );

    let result = RequestBase::new(&buf);
    assert!(result.is_err());
}

// Test case 4: Buffer with zero-length client_id.
#[test]
fn test_zero_length_client_id() {
    let buf = BytesMut::from(
        &[
            0, 0, 0, 10, // size (i32)
            0, 1, // api_key (i16)
            0, 1, // api_version (i16)
            0, 0, 0, 5, // correlation_id (i32)
            255, 255, // client_id_size (i16)
        ][..],
    );

    let result = RequestBase::new(&buf);
    assert!(result.is_ok());

    let request_base = result.unwrap();
    assert_eq!(request_base.size, 10);
    assert_eq!(request_base.api_key, 1);
    assert_eq!(request_base.api_version, 1);
    assert_eq!(request_base.correlation_id, 5);
    assert_eq!(request_base.base_size, 14);
    assert_eq!(request_base.client_id.value, "");
    assert_eq!(request_base.client_id.length, 0);
}

// Test case 5: Buffer where the client_id size is larger than the buffer can handle.
#[test]
fn test_client_id_size_exceeds_buffer() {
    let buf = BytesMut::from(
        &[
            0, 0, 0, 10, // size (i32)
            0, 1, // api_key (i16)
            0, 1, // api_version (i16)
            0, 0, 0, 5, // correlation_id (i32)
            0, 100, // client_id_size (i16) — too large for the remaining buffer
            0, 0,
        ][..],
    );

    let result = RequestBase::new(&buf);
    assert!(result.is_err());
}

// Test case 6: Buffer with all fields correctly set, including a small client_id.
#[test]
fn test_small_client_id() {
    let buf = BytesMut::from(
        &[
            0, 0, 0, 10, // size (i32)
            0, 1, // api_key (i16)
            0, 1, // api_version (i16)
            0, 0, 0, 5, // correlation_id (i32)
            0, 1,  // client_id_size (i16) — single character
            72, // client_id ("H")
        ][..],
    );

    let result = RequestBase::new(&buf);
    assert!(result.is_ok());

    let request_base = result.unwrap();
    assert_eq!(request_base.size, 10);
    assert_eq!(request_base.api_key, 1);
    assert_eq!(request_base.api_version, 1);
    assert_eq!(request_base.correlation_id, 5);
    assert_eq!(request_base.base_size, 15);
    assert_eq!(request_base.client_id.value, "H");
    assert_eq!(request_base.client_id.length, 1);
}

// A 19-byte frame for API key 18 version 1: every header field lands where
// the fixed offsets say, and the body starts right after the client id.
#[test]
fn test_header_fixed_offsets() {
    let buf = BytesMut::from(
        &[
            0, 0, 0, 10, // size
            0, 18, // api_key
            0, 1, // api_version
            0, 0, 0, 5, // correlation_id
            0, 5, // client_id length
            b'H', b'e', b'l', b'l', b'o', // client_id
        ][..],
    );

    let header = RequestBase::new(&buf).unwrap();
    assert_eq!(header.size, 10);
    assert_eq!(header.api_key, 18);
    assert_eq!(header.api_version, 1);
    assert_eq!(header.correlation_id, 5);
    assert_eq!(header.base_size, 19);
    assert_eq!(header.client_id.value, "Hello");
}
