use ras_chat::access::{authorize, TokenRecord};
use ras_chat::request::{append_message, check_access, message_key, messages_from, parse_query, ServiceError};
use ras_chat::ring::Queue;

fn token(name: &str, roles: u8) -> TokenRecord {
    TokenRecord { subject_id: name.to_string(), role_bitmask: roles, not_after: 0 }
}

#[test]
fn authorize_needs_a_shared_role() {
    assert!(!authorize(&token("u", 0b0010), 0b0001));
    assert!(authorize(&token("u", 0b0011), 0b0001));
    assert!(authorize(&token("u", 0b0110), 0b0100));
    assert!(!authorize(&token("u", 0), 0xff));
    assert!(!authorize(&token("u", 0xff), 0));
}

#[test]
fn check_access_reports_denial() {
    assert_eq!(check_access(&token("u", 0b0010), 0b0001), Err(ServiceError::AuthorizationDenied));
    assert_eq!(check_access(&token("u", 0b0011), 0b0001), Ok(()));
}

#[test]
fn message_key_appends_decimal_time() {
    assert_eq!(message_key("alice", 1700000000123), "alice1700000000123");
    assert_eq!(message_key("bob", 0), "bob0");
    assert_eq!(message_key("", 9), "9");
    assert_eq!(message_key("x", 10), "x10");
    assert_eq!(message_key("m", u128::MAX), format!("m{}", u128::MAX));
}

#[test]
fn missing_payload_is_bad_request() {
    assert!(matches!(parse_query(None), Err(ServiceError::BadRequest)));
}

#[test]
fn malformed_payload_is_bad_request() {
    assert!(matches!(parse_query(Some("{not json")), Err(ServiceError::BadRequest)));
    assert!(matches!(parse_query(Some("[1, 2]")), Err(ServiceError::BadRequest)));
    assert!(matches!(parse_query(Some("{\"token\": 5}")), Err(ServiceError::BadRequest)));
}

#[test]
fn payload_fields_are_read() {
    let q = parse_query(Some("{\"token\": \"abc\", \"message\": null}")).ok().unwrap();
    assert_eq!(q.text_field("token"), Some("abc".to_string()));
    assert_eq!(q.text_field("message"), None);
    assert_eq!(q.text_field("other"), None);
    assert_eq!(q.required("token"), Ok("abc".to_string()));
    assert_eq!(q.required("message"), Err(ServiceError::BadRequest));
}

#[test]
fn append_message_stores_under_derived_key() {
    let mut log = Queue::new(3, 10);
    let q = parse_query(Some("{\"token\": \"t\", \"message\": \"hello\"}")).ok().unwrap();
    assert_eq!(append_message(&mut log, &token("ann", 1), 42, &q), Ok(()));
    let all = log.snapshot_all();
    assert_eq!(all[2].key, "ann42");
    assert_eq!(all[2].value, "hello");
}

#[test]
fn append_message_without_message_is_bad_request() {
    let mut log = Queue::new(2, 10);
    let q = parse_query(Some("{\"token\": \"t\"}")).ok().unwrap();
    assert_eq!(append_message(&mut log, &token("ann", 1), 42, &q), Err(ServiceError::BadRequest));
    assert_eq!(log.get_all(), "[\r\n\"\":\"\",\r\n\"\":\"\"]");
}

#[test]
fn append_message_too_long() {
    let mut log = Queue::new(2, 5);
    let q = parse_query(Some("{\"message\": \"hello\"}")).ok().unwrap();
    assert_eq!(append_message(&mut log, &token("ann", 1), 1, &q), Err(ServiceError::MessageTooLong));
    assert_eq!(log.get_all(), "[\r\n\"\":\"\",\r\n\"\":\"\"]");
}

#[test]
fn messages_from_reads_start_key() {
    let mut log = Queue::new(3, 10);
    for (i, text) in ["a", "b", "c"].iter().enumerate() {
        let q = parse_query(Some(&format!("{{\"message\": \"{}\"}}", text))).ok().unwrap();
        append_message(&mut log, &token("u", 1), i as u128, &q).unwrap();
    }
    let q = parse_query(Some("{\"start_key\": \"u1\"}")).ok().unwrap();
    assert_eq!(messages_from(&log, &q), Ok("[\r\n\"u1\":\"b\",\r\n\"u2\":\"c\"]".to_string()));
    let q = parse_query(Some("{\"start_key\": \"nonexistent\"}")).ok().unwrap();
    assert_eq!(messages_from(&log, &q), Ok("[\r\n]".to_string()));
    let q = parse_query(Some("{}")).ok().unwrap();
    assert_eq!(messages_from(&log, &q), Err(ServiceError::BadRequest));
}
