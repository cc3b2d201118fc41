use broker_wire::types::decode_varint;
use broker_wire::types::encode_zigzag;
use broker_wire::types::compactstring::CompactValueParseError;

#[test]
fn test_varint_round_trip_small() {
    for v in [0u64, 1, 5, 127] {
        let enc = encode_zigzag(v);
        assert_eq!(enc.len(), 1);
        let (decoded, len) = decode_varint(&enc).unwrap();
        assert_eq!(decoded, v);
        assert_eq!(len, enc.len());
    }
}

#[test]
fn test_varint_round_trip_multi_byte() {
    for v in [128u64, 300, 16383, 16384, 0x0fff_ffff, u64::MAX / 2, u64::MAX] {
        let enc = encode_zigzag(v);
        let (decoded, len) = decode_varint(&enc).unwrap();
        assert_eq!(decoded, v);
        assert_eq!(len, enc.len());
    }
}

#[test]
fn test_varint_round_trip_with_trailing_bytes() {
    let mut enc = encode_zigzag(300);
    assert_eq!(enc, vec![0xac, 0x02]);
    enc.extend_from_slice(&[0xff, 0x01, 0x00]);
    let (decoded, len) = decode_varint(&enc).unwrap();
    assert_eq!(decoded, 300);
    assert_eq!(len, 2);
}

#[test]
fn test_varint_empty_buffer() {
    let result = decode_varint(&[]);
    assert_eq!(result.err().unwrap(), CompactValueParseError::InvalidVarint);
}

#[test]
fn test_varint_unterminated() {
    let result = decode_varint(&[0x80, 0x80]);
    assert_eq!(result.err().unwrap(), CompactValueParseError::InvalidVarint);
}

#[test]
fn test_varint_too_long() {
    let result = decode_varint(&[0xff; 11]);
    assert_eq!(result.err().unwrap(), CompactValueParseError::InvalidVarint);
}

#[test]
fn test_varint_max_length_accepted() {
    let enc = encode_zigzag(u64::MAX);
    assert_eq!(enc.len(), 10);
    let (decoded, len) = decode_varint(&enc).unwrap();
    assert_eq!(decoded, u64::MAX);
    assert_eq!(len, 10);
}
