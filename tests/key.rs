use rpass::key::{parts_to_bytes, read_part, Error, Key, ParseError};

#[test]
fn test_from_invalid_format() {
    assert!(matches!(Key::from_str("156"), Err(ParseError::InvalidFormat)));
    assert!(matches!(Key::from_str("19704:"), Err(ParseError::InvalidFormat)));
    assert!(matches!(Key::from_str(":9758"), Err(ParseError::InvalidFormat)));
}

#[test]
fn test_from_str_not_a_number() {
    assert!(matches!(Key::from_str("public:key"), Err(ParseError::ParseBigInt)));
}

#[test]
fn key_from_str_reads_both_numbers() {
    let key = Key::from_str("898:19634").unwrap();
    assert_eq!(key.0, "898");
    assert_eq!(key.1, "19634");
}

#[test]
fn key_from_str_writes_numbers_canonically() {
    let key = Key::from_str("007:+1_000").unwrap();
    assert_eq!(key.0, "7");
    assert_eq!(key.1, "1000");
    assert_eq!(key.to_string(), "7:1000");
}

#[test]
fn key_from_str_splits_at_first_colon() {
    assert!(matches!(Key::from_str("1:2:3"), Err(ParseError::ParseBigInt)));
    assert!(matches!(Key::from_str("_1:2"), Err(ParseError::ParseBigInt)));
    assert!(matches!(Key::from_str("++1:2"), Err(ParseError::ParseBigInt)));
}

#[test]
fn key_to_string() {
    let key = Key("845".to_owned(), "947".to_owned());
    assert_eq!(key.to_string(), "845:947");
}

#[test]
fn key_generate_pair_and_cipher() {
    let (pub_key, sec_key) = Key::generate_pair();
    assert_eq!(pub_key.to_string(), "269:221");
    assert_eq!(sec_key.to_string(), "5:221");
    let c = pub_key.encrypt("confirmation");
    assert_eq!(sec_key.decrypt(&c), "confirmation");
}

#[test]
fn key_parse_error_messages() {
    assert_eq!(ParseError::InvalidFormat.message(), "invalid format");
    assert_eq!(ParseError::ParseBigInt.message(), "error parsing big int");
}

fn part(len: u64, value: u16) -> Vec<u8> {
    let mut bytes = len.to_le_bytes().to_vec();
    bytes.extend_from_slice(&value.to_le_bytes());
    bytes
}

#[test]
fn test_as_bytes() {
    let mut bytes = part(2, 734);
    bytes.extend(part(2, 1040));
    let key = Key("734".to_owned(), "1040".to_owned());
    assert_eq!(bytes, key.as_bytes());
}

#[test]
fn test_from_bytes() {
    let mut bytes = part(2, 657);
    bytes.extend(part(2, 298));
    let key = Key::from_bytes(&bytes).unwrap();
    assert_eq!(key.0, "657");
    assert_eq!(key.1, "298");
}

#[test]
fn test_from_as_bytes() {
    let key = Key("18764".to_owned(), "8975".to_owned());
    let back = Key::from_bytes(&key.as_bytes()).unwrap();
    assert_eq!(back.0, key.0);
    assert_eq!(back.1, key.1);
}

#[test]
fn key_from_bytes_truncated() {
    assert!(matches!(Key::from_bytes(&[1, 0, 0]), Err(Error::Truncated)));
    let mut bytes = part(2, 657);
    bytes.extend_from_slice(&5u64.to_le_bytes());
    bytes.push(1);
    assert!(matches!(Key::from_bytes(&bytes), Err(Error::Truncated)));
}

#[test]
fn key_parts_to_bytes_and_back() {
    let bytes = parts_to_bytes(vec![1, 2, 3], vec![]);
    let mut expected = 3u64.to_le_bytes().to_vec();
    expected.extend_from_slice(&[1, 2, 3]);
    expected.extend_from_slice(&0u64.to_le_bytes());
    assert_eq!(bytes, expected);
    let (first, rest) = read_part(&bytes).unwrap();
    assert_eq!(first, vec![1, 2, 3]);
    let (second, tail) = read_part(&rest).unwrap();
    assert!(second.is_empty());
    assert!(tail.is_empty());
    assert!(read_part(&bytes[..10]).is_none());
}
