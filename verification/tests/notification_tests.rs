//! Trigger-notification reading behaviour.

use data_ingestion::error::IngestionError;
use data_ingestion::notification::parse_notification;

#[test]
fn test_notification_names_files() {
    let body = b"{\"Records\":[\
        {\"s3\":{\"bucket\":{\"name\":\"b1\"},\"object\":{\"key\":\"k1.csv\"}}},\
        {\"s3\":{\"bucket\":{\"name\":\"b2\"},\"object\":{\"key\":\"k2.json\"}}}\
    ]}";
    let files = parse_notification(body).unwrap();
    assert_eq!(files.len(), 2);
    assert_eq!(files[0].bucket, "b1");
    assert_eq!(files[0].key, "k1.csv");
    assert_eq!(files[1].bucket, "b2");
    assert_eq!(files[1].key, "k2.json");
}

#[test]
fn test_notification_skips_incomplete_entries() {
    let body = b"{\"Records\":[\
        {\"s3\":{\"bucket\":{\"name\":\"b1\"}}},\
        {\"s3\":{\"bucket\":{\"name\":\"b2\"},\"object\":{\"key\":\"k2.csv\"}}},\
        {\"other\":true}\
    ]}";
    let files = parse_notification(body).unwrap();
    assert_eq!(files.len(), 1);
    assert_eq!(files[0].bucket, "b2");
}

#[test]
fn test_notification_without_records_names_nothing() {
    let files = parse_notification(b"{\"Message\":\"hello\"}").unwrap();
    assert_eq!(files.len(), 0);
}

#[test]
fn test_notification_invalid_payload_is_parse_error() {
    let result = parse_notification(b"not json at all");
    assert!(matches!(result, Err(IngestionError::Parse(_))));
}
