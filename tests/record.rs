use rpass::record::{ParseRecordError, Record};

#[test]
fn test_new() {
    let record = Record::new();
    assert_eq!(record.resource, "");
    assert_eq!(record.password, "");
    assert_eq!(record.notes, "");
}

#[test]
fn record_test_from_str() {
    assert!(matches!(Record::from_str(""), Err(ParseRecordError::EmptyString)));
    let record = Record::from_str("secret\nnotes\nanother notes").unwrap();
    assert_eq!(record.resource, String::default());
    assert_eq!(record.password, "secret");
    assert_eq!(record.notes, "notes\nanother notes");
}

#[test]
fn record_test_to_string() {
    let record = Record {
        resource: "example.com".to_owned(),
        password: "secret".to_owned(),
        notes: "some notes\nvery useful".to_owned(),
    };
    assert_eq!(record.to_string(), "secret\nsome notes\nvery useful");
}

#[test]
fn record_text_round_trip() {
    let record = Record {
        resource: String::new(),
        password: "pw".to_owned(),
        notes: "line one\nline two".to_owned(),
    };
    let parsed = Record::from_str(&record.to_string()).unwrap();
    assert_eq!(parsed.password, "pw");
    assert_eq!(parsed.notes, "line one\nline two");
}

#[test]
fn record_duplicate_keeps_fields() {
    let record = Record {
        resource: "a.com".to_owned(),
        password: "p".to_owned(),
        notes: "n".to_owned(),
    };
    let copy = record.duplicate();
    assert_eq!(copy.resource, "a.com");
    assert_eq!(copy.password, "p");
    assert_eq!(copy.notes, "n");
}

#[test]
fn record_parse_error_message() {
    assert_eq!(ParseRecordError::EmptyString.message(), "empty string");
}
