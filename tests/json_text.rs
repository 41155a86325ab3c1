use imessage_undeleter::fingerprint::{DeletionRecord, MessageFingerprint};
use imessage_undeleter::json::{fingerprint_to_json, record_to_json, texts_to_json};

fn fingerprint() -> MessageFingerprint {
    MessageFingerprint {
        message_id: 7,
        content_hash: "abc".to_string(),
        attachment_hashes: vec![],
        timestamp: -2,
        conversation_id: Some(3),
        sender_handle: None,
        content: Some("a\"b\\c\nd\u{1}é".to_string()),
    }
}

fn record() -> DeletionRecord {
    DeletionRecord {
        id: 12,
        message_id: 7,
        original_fingerprint: fingerprint(),
        deletion_timestamp: 100,
        deletion_type: "AttachmentOnly".to_string(),
        recovered_content: None,
        recovered_attachments: vec!["x".to_string(), "y".to_string()],
    }
}

#[test]
fn compact_fingerprint_json() {
    assert_eq!(
        fingerprint_to_json(&fingerprint()),
        "{\"message_id\":7,\"content_hash\":\"abc\",\"attachment_hashes\":[],\"timestamp\":-2,\"conversation_id\":3,\"sender_handle\":null,\"content\":\"a\\\"b\\\\c\\nd\\u0001é\"}"
    );
}

#[test]
fn compact_text_array_json() {
    assert_eq!(texts_to_json(&vec![]), "[]");
    assert_eq!(
        texts_to_json(&vec!["t\tab".to_string(), "\u{8}\u{c}\r\u{1f}".to_string()]),
        "[\"t\\tab\",\"\\b\\f\\r\\u001f\"]"
    );
}

#[test]
fn pretty_record_json() {
    let expected = "{\n  \"id\": 12,\n  \"message_id\": 7,\n  \"original_fingerprint\": {\n    \"message_id\": 7,\n    \"content_hash\": \"abc\",\n    \"attachment_hashes\": [],\n    \"timestamp\": -2,\n    \"conversation_id\": 3,\n    \"sender_handle\": null,\n    \"content\": \"a\\\"b\\\\c\\nd\\u0001é\"\n  },\n  \"deletion_timestamp\": 100,\n  \"deletion_type\": \"AttachmentOnly\",\n  \"recovered_content\": null,\n  \"recovered_attachments\": [\n    \"x\",\n    \"y\"\n  ]\n}";
    assert_eq!(record_to_json(&record(), true), expected);
}

#[test]
fn compact_record_json_is_one_line() {
    let text = record_to_json(&record(), false);
    assert_eq!(text.lines().count(), 1);
    assert!(text.ends_with("\"recovered_content\":null,\"recovered_attachments\":[\"x\",\"y\"]}"));
}
