use metamanager::protocol::decode;
use metamanager::protocol::encode;
use metamanager::protocol::ProtocolError;

#[test]
fn encode_tags_the_payload() {
    assert_eq!(encode(3, "hello", ':'), "3:hello");
    assert_eq!(encode(0, "", ':'), "0:");
    assert_eq!(encode(12, "move 4", ':'), "12:move 4");
}

#[test]
fn round_trip_returns_id_and_payload() {
    let line = encode(3, "hello", ':');
    let tagged = decode(&line, ':').unwrap();
    assert_eq!(tagged.id, 3);
    assert_eq!(tagged.payload, "hello");
}

#[test]
fn round_trip_keeps_later_delimiters_in_the_payload() {
    let line = encode(10, "a:b:c", ':');
    assert_eq!(line, "10:a:b:c");
    let tagged = decode(&line, ':').unwrap();
    assert_eq!(tagged.id, 10);
    assert_eq!(tagged.payload, "a:b:c");
}

#[test]
fn non_numeric_prefix_is_malformed() {
    assert!(matches!(decode("x:hello", ':'), Err(ProtocolError::MalformedTag)));
    assert!(matches!(decode("1x:hello", ':'), Err(ProtocolError::MalformedTag)));
    assert!(matches!(decode("-1:hello", ':'), Err(ProtocolError::MalformedTag)));
}

#[test]
fn missing_delimiter_is_malformed() {
    assert!(matches!(decode("hello", ':'), Err(ProtocolError::MalformedTag)));
    assert!(matches!(decode("", ':'), Err(ProtocolError::MalformedTag)));
}

#[test]
fn empty_prefix_is_malformed() {
    assert!(matches!(decode(":hello", ':'), Err(ProtocolError::MalformedTag)));
}

#[test]
fn empty_payload_is_fine() {
    let tagged = decode("5:", ':').unwrap();
    assert_eq!(tagged.id, 5);
    assert_eq!(tagged.payload, "");
}

#[test]
fn leading_zeros_are_digits() {
    let tagged = decode("007:go", ':').unwrap();
    assert_eq!(tagged.id, 7);
    assert_eq!(tagged.payload, "go");
}

#[test]
fn id_too_large_for_usize_is_malformed() {
    // 2^64, one past usize::MAX on a 64-bit machine
    assert!(matches!(
        decode("18446744073709551616:x", ':'),
        Err(ProtocolError::MalformedTag)
    ));
}

#[test]
fn another_delimiter_works_the_same() {
    let line = encode(4, "data", '|');
    assert_eq!(line, "4|data");
    let tagged = decode(&line, '|').unwrap();
    assert_eq!(tagged.id, 4);
    assert_eq!(tagged.payload, "data");
}
