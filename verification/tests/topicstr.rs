use broker_wire::types::topicstr::TopicStr;
use broker_wire::types::Offset;

#[test]
fn test_valid_topic_str() {
    let buf: &[u8] = &[
        0x03, // Varint length (3 bytes)
        b'F', b'o', b'o', // UTF-8 bytes for "Foo"
        0x01, // A tag byte, for example
    ];

    let result = TopicStr::new(buf);

    assert!(result.is_ok());
    let topic_str = result.unwrap();
    assert_eq!(topic_str.value.value, "Foo");
    assert_eq!(topic_str.tag_buffer, 0x01);
    assert_eq!(topic_str.bytes_len, 5);
}

#[test]
fn test_valid_topic_str_junk_after() {
    let buf: &[u8] = &[
        0x03, // Varint length (3 bytes)
        b'F', b'o', b'o', // UTF-8 bytes for "Foo"
        0x01, // A tag byte, for example
        0x00, 0x00, 0x00, 0x00, 0x00,
    ];

    let result = TopicStr::new(buf);

    assert!(result.is_ok());
    let topic_str = result.unwrap();
    assert_eq!(topic_str.value.value, "Foo");
    assert_eq!(topic_str.tag_buffer, 0x01);
    assert_eq!(topic_str.bytes_len, 5);
}

#[test]
fn topicstr_test_buffer_too_small() {
    let buf: &[u8] = &[0x03];

    let result = TopicStr::new(buf);

    assert!(result.is_err());
}

#[test]
fn topicstr_test_invalid_utf8() {
    let buf: &[u8] = &[0x03, 0xFF, 0xFF, 0xFF];

    let result = TopicStr::new(buf);

    assert!(result.is_err());
}

#[test]
fn test_insufficient_buffer_for_string_data() {
    let buf: &[u8] = &[0x05, b'F', b'o', b'o', b'B'];

    let result = TopicStr::new(buf);

    assert!(result.is_err());
}

#[test]
fn test_topic_str_strips_trailing_nul() {
    // A wire-form topic name whose length prefix covers the terminator: the
    // NUL is stripped, the size and prefix count drop by one, and the NUL
    // position is read back as the tag byte.
    let buf: &[u8] = &[0x04, b'f', b'o', b'o', 0x00, 0xAA];

    let topic_str = TopicStr::new(buf).unwrap();
    assert_eq!(topic_str.value.value, "foo");
    assert_eq!(topic_str.value.size, 3);
    assert_eq!(topic_str.value.size_len_bytes, 4);
    assert_eq!(topic_str.tag_buffer, 0x00);
    assert_eq!(topic_str.bytes_len, 5);
    assert_eq!(topic_str.get_offset(), 5);
}

#[test]
fn test_topic_str_missing_tag_byte() {
    let buf: &[u8] = &[0x03, b'F', b'o', b'o'];

    let result = TopicStr::new(buf);
    assert!(result.is_err());
}

#[test]
fn test_topic_str_offset_counts_tag() {
    let buf: &[u8] = &[0x03, b'F', b'o', b'o', 0x01, 0x07];
    let topic_str = TopicStr::new(buf).unwrap();
    assert_eq!(topic_str.get_offset(), 5);
}
