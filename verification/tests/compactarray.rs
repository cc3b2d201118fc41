use bytes::BytesMut;

use broker_wire::rpc::encode::Encode;
use broker_wire::types::compactarray::CompactArray;
use broker_wire::types::compactstring::CompactString;
use broker_wire::types::topicstr::TopicStr;

#[test]
fn test_compact_array_decoding_invalid_varint() {
    // Test case where the buffer is invalid (not enough data for the expected length)
    let buf: Vec<u8> = vec![
        2, // length of elements (2 elements)
        5, b'H', b'e', b'l', b'l', // missing byte for "Hello"
    ];

    let result = CompactArray::<CompactString>::new(&buf);
    assert!(result.is_err());
}

#[test]
fn test_compact_array_empty_buffer() {
    // Test case where the buffer is empty
    let buf: Vec<u8> = vec![];

    let result = CompactArray::<CompactString>::new(&buf);
    assert!(result.is_err());
}

#[test]
fn test_compact_array_count_plus_one() {
    // The varint prefix declares the element count plus one: a prefix of 3
    // yields the two strings that follow it, in order.
    let buf: Vec<u8> = vec![
        3, // element count plus one (2 elements)
        5, b'H', b'e', b'l', b'l', b'o', // first string: "Hello"
        3, b'B', b'y', b'e', // second string: "Bye"
    ];

    let (compact_array, used) = CompactArray::<CompactString>::new(&buf[..]).unwrap();

    assert_eq!(compact_array.elements.len(), 2);
    assert_eq!(compact_array.elements[0].value, "Hello");
    assert_eq!(compact_array.elements[1].value, "Bye");
    assert_eq!(used, buf.len());
}

#[test]
fn test_compact_array_zero_elements() {
    let buf: Vec<u8> = vec![1, 42, 42];
    let (compact_array, used) = CompactArray::<CompactString>::new(&buf[..]).unwrap();
    assert_eq!(compact_array.elements.len(), 0);
    assert_eq!(used, 1);
}

#[test]
fn test_compact_array_zero_count_rejected() {
    let buf: Vec<u8> = vec![0, 5, b'H', b'e', b'l', b'l', b'o'];
    let result = CompactArray::<CompactString>::new(&buf);
    assert!(result.is_err());
}

#[test]
fn test_compact_array_truncated_last_element() {
    // The buffer ends before the second declared element: the decode fails
    // as a whole rather than returning a partial array.
    let buf: Vec<u8> = vec![
        3, // element count plus one (2 elements)
        5, b'H', b'e', b'l', b'l', b'o', // first string: "Hello"
    ];

    let result = CompactArray::<CompactString>::new(&buf);
    assert!(result.is_err());
}

#[test]
fn test_compact_array_of_topic_strings() {
    let buf: Vec<u8> = vec![
        3, // element count plus one (2 elements)
        4, b'f', b'o', b'o', 0x00, // "foo" with its NUL terminator read as the tag
        4, b'b', b'a', b'r', 0x00, // "bar" likewise
        9, 9, // unrelated trailing bytes
    ];

    let (arr, used) = CompactArray::<TopicStr>::new(&buf[..]).unwrap();
    assert_eq!(arr.elements.len(), 2);
    assert_eq!(arr.elements[0].value.value, "foo");
    assert_eq!(arr.elements[1].value.value, "bar");
    assert_eq!(used, 11);
}

#[test]
fn test_compact_array_empty_encode_marker() {
    let arr: CompactArray<CompactString> = CompactArray { elements: vec![] };
    let mut buf = BytesMut::new();
    arr.encode(&mut buf);
    assert_eq!(&buf[..], &[1]);
}

#[test]
fn test_compact_array_nonempty_encode_writes_nothing() {
    let element = CompactString { value: "x".to_string(), size: 1, size_len_bytes: 2 };
    let arr = CompactArray { elements: vec![element] };
    let mut buf = BytesMut::new();
    arr.encode(&mut buf);
    assert_eq!(buf.len(), 0);
}
