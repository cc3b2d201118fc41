use bytes::BufMut;
use bytes::BytesMut;

use broker_wire::types::nullstring::NullableString;
use broker_wire::types::nullstring::NullableStringError;

#[test]
fn test_new_success() {
    let mut buf = BytesMut::with_capacity(10);
    buf.extend_from_slice(&[0, 5]);
    buf.put(&b"Hello"[..]);

    let idx = 2;
    let length = 5;

    let result = NullableString::new(&buf, idx, length);

    let nullable_string = result.unwrap();
    assert_eq!(nullable_string.value, "Hello");
    assert_eq!(nullable_string.length, 5);
}

#[test]
fn test_new_empty_string_more_content() {
    let mut buf = BytesMut::with_capacity(10);
    buf.extend_from_slice(&[0, 255]);
    buf.extend_from_slice(b"Hello");

    let idx = 3;
    let length = -1;

    let result = NullableString::new(&buf, idx, length);

    assert!(result.is_ok());
    let nullable_string = result.unwrap();
    assert_eq!(nullable_string.value, "");
    assert_eq!(nullable_string.length, 0);
}

#[test]
fn test_new_empty_string() {
    let mut buf = BytesMut::with_capacity(10);
    buf.extend_from_slice(&[0, 255]);
    buf.extend_from_slice(b"");

    let idx = 0;
    let length = -1;

    let result = NullableString::new(&buf, idx, length);

    assert!(result.is_ok());
    let nullable_string = result.unwrap();
    assert_eq!(nullable_string.value, "");
    assert_eq!(nullable_string.length, 0);
}

#[test]
fn test_index_out_of_bounds() {
    let mut buf = BytesMut::with_capacity(10);
    buf.extend_from_slice(&[0, 5]);
    buf.extend_from_slice(b"Hello");

    let idx = 0;
    let length = 10;

    let result = NullableString::new(&buf, idx, length);

    assert!(result.is_err());
}

#[test]
fn test_invalid_buf_length() {
    let mut buf = BytesMut::with_capacity(2);
    buf.extend_from_slice(&[0, 5]);

    let idx = 0;
    let length = 5;

    let result = NullableString::new(&buf, idx, length);

    assert!(result.is_err());
}

#[test]
fn nullstring_test_invalid_utf8() {
    let mut buf = BytesMut::with_capacity(10);
    buf.extend_from_slice(&[0, 3]);
    buf.extend_from_slice(&[0xFF, 0xFF, 0xFF]);

    let idx = 0;
    let length = 3;

    let result = NullableString::new(&buf, idx, length);

    assert!(result.is_err());
}

#[test]
fn test_length_below_minus_one_rejected() {
    let buf = BytesMut::from(&b"Hello"[..]);
    let result = NullableString::new(&buf, 0, -2);
    assert!(matches!(result, Err(NullableStringError::IndexOutOfBounds)));
}

#[test]
fn test_invalid_utf8_reports_other() {
    let buf = BytesMut::from(&[0xFF, 0xFF][..]);
    let result = NullableString::new(&buf, 0, 2);
    assert!(matches!(result, Err(NullableStringError::Other(_))));
}

#[test]
fn test_legacy_string_round_trip() {
    let text = "gr\u{fc}n";
    let payload = text.as_bytes();
    let mut buf = BytesMut::new();
    buf.extend_from_slice(&(payload.len() as i16).to_be_bytes());
    buf.extend_from_slice(payload);
    buf.extend_from_slice(&[9, 9, 9]);

    let result = NullableString::new(&buf, 2, payload.len() as i16).unwrap();
    assert_eq!(result.value, text);
    assert_eq!(result.length, payload.len() as i16);
}

#[test]
fn test_new_empty() {
    let ns = NullableString::new_empty();
    assert_eq!(ns.value, "");
    assert_eq!(ns.length, 0);
}
