use broker_wire::types::compactstring::CompactString;
use broker_wire::types::compactstring::CompactValueParseError;
use broker_wire::types::encode_zigzag;

fn gen_very_long_str() -> String {
    "0123456789".repeat(100).to_string()
}

fn generate_test_data() -> Vec<u8> {
    let length = 1000u64;

    let mut varint_bytes = vec![];
    let mut len = length;
    while len > 0x7f {
        varint_bytes.push((len as u8 & 0x7f) | 0x80);
        len >>= 7;
    }
    varint_bytes.push(len as u8);

    let string_content = gen_very_long_str();
    let string_bytes = string_content.as_bytes();

    let mut buf = varint_bytes;
    buf.extend_from_slice(string_bytes);

    buf
}

#[test]
fn test_parse_string_valid_short() {
    let data: &[u8] = &[5, 104, 101, 108, 108, 111];
    assert_eq!(CompactString::get(data).unwrap().0, "hello".to_string());
}

#[test]
fn test_parse_string_valid_long_varint() {
    let test_data = generate_test_data();
    assert_eq!(CompactString::get(&test_data[..]).unwrap().0, gen_very_long_str());
}

#[test]
fn test_parse_string_invalid_utf8() {
    let invalid_utf8: &[u8] = &[1, 0xFF];
    let compact = CompactString::get(invalid_utf8);
    assert!(compact.is_err());
}

#[test]
fn test_parse_string_invalid_length() {
    let invalid_length: &[u8] = &[5, 104, 101];
    let compact = CompactString::get(invalid_length);
    assert!(compact.is_err());
}

#[test]
fn test_new_valid_input() {
    let data = generate_test_data();

    let result = CompactString::new(&data);
    assert!(result.is_ok());

    let compact_string = result.unwrap();
    assert_eq!(compact_string.value, gen_very_long_str());
    assert_eq!(compact_string.size, 1000);
    assert_eq!(compact_string.size_len_bytes, 1002);
}

#[test]
fn test_new_invalid_length_prefix() {
    let data: &[u8] = &[10, 104, 101, 108, 108, 111];

    let result = CompactString::new(data);
    assert!(result.is_err());
    assert_eq!(result.err().unwrap(), CompactValueParseError::InvalidLengthPrefix);
}

#[test]
fn test_new_invalid_utf8() {
    let data: &[u8] = &[5, 0, 255, 0, 255, 0];

    let result = CompactString::new(data);
    assert!(result.is_err());
}

#[test]
fn test_new_empty_buffer() {
    let data: &[u8] = &[];

    let result = CompactString::new(data);
    assert!(result.is_err());
}

#[test]
fn test_new_large_length() {
    let data: &[u8] = &[100, 104, 101, 108, 108, 111];

    let result = CompactString::new(data);
    assert!(result.is_err());
    assert_eq!(result.err().unwrap(), CompactValueParseError::InvalidLengthPrefix);
}

#[test]
fn test_compact_string_round_trip() {
    let text = "caf\u{e9} na\u{ef}ve";
    let payload = text.as_bytes();
    let mut buf = encode_zigzag(payload.len() as u64);
    buf.extend_from_slice(payload);
    buf.extend_from_slice(&[1, 2, 3]);

    let cs = CompactString::new(&buf).unwrap();
    assert_eq!(cs.value, text);
    assert_eq!(cs.size, payload.len());
    assert_eq!(cs.size_len_bytes, 1 + payload.len() as u64);
}

#[test]
fn test_compact_string_empty_payload() {
    let buf: &[u8] = &[0, 42, 42];
    let (s, total) = CompactString::get(buf).unwrap();
    assert_eq!(s, "");
    assert_eq!(total, 1);
}
