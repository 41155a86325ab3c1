use imessage_undeleter::database::{
    conversation_matches, create_deletion_event, get_handle, is_silent_deletion, visible_text,
    AttachmentMeta, Handle, RealMessage,
};
use imessage_undeleter::database::build_current_fingerprint;
use imessage_undeleter::message_tracker::MessageTracker;
use imessage_undeleter::state_manager::StateManager;

fn msg(id: i32, text: Option<&str>, handle: Option<i32>, edited: Option<i64>) -> RealMessage {
    RealMessage {
        id,
        guid: format!("guid-{}", id),
        text: text.map(|t| t.to_string()),
        handle_id: handle,
        date: 1_500_000_000_000_000_000,
        date_edited: edited,
        date_retracted: None,
        is_from_me: false,
        cache_has_attachments: false,
    }
}

fn handles() -> Vec<Handle> {
    vec![
        Handle { id: 1, identifier: "alice@example.com".to_string(), service: "iMessage".to_string() },
        Handle { id: 2, identifier: "+15550100".to_string(), service: "SMS".to_string() },
    ]
}

#[test]
fn visible_text_ignores_blank() {
    assert!(visible_text(&Some("hi".to_string())));
    assert!(!visible_text(&Some("  \n\t".to_string())));
    assert!(!visible_text(&Some(String::new())));
    assert!(!visible_text(&None));
}

#[test]
fn silent_deletion_rule() {
    let cached = msg(1, Some("secret"), Some(1), None);
    assert!(is_silent_deletion(&cached, &msg(1, None, Some(1), Some(5))));
    assert!(is_silent_deletion(&cached, &msg(1, Some("  "), Some(1), Some(5))));
    assert!(!is_silent_deletion(&cached, &msg(1, None, Some(1), None)));
    assert!(!is_silent_deletion(&cached, &msg(1, Some("other"), Some(1), Some(5))));
    let edited = msg(1, Some("secret"), Some(1), Some(5));
    assert!(!is_silent_deletion(&edited, &msg(1, None, Some(1), Some(5))));
    assert!(is_silent_deletion(&edited, &msg(1, None, Some(1), Some(6))));
    assert!(!is_silent_deletion(&msg(1, Some(" "), None, None), &msg(1, None, None, Some(6))));
}

#[test]
fn conversation_filter_rule() {
    let h = handles();
    assert!(conversation_matches(&msg(1, Some("a"), Some(1), None), &h, "alice"));
    assert!(!conversation_matches(&msg(1, Some("a"), Some(2), None), &h, "alice"));
    let mut mine = msg(1, Some("a"), None, None);
    assert!(!conversation_matches(&mine, &h, "alice"));
    mine.is_from_me = true;
    assert!(conversation_matches(&mine, &h, "alice"));
    mine.handle_id = Some(99);
    assert!(conversation_matches(&mine, &h, "zzz"));
    assert_eq!(get_handle(&h, 2).unwrap().identifier, "+15550100");
    assert!(get_handle(&h, 3).is_none());
}

#[test]
fn deletion_event_fields() {
    let h = handles();
    let mut m = msg(42, Some("gone"), Some(1), None);
    m.cache_has_attachments = true;
    let e = create_deletion_event(&m, &h);
    assert_eq!(e.message_id, 42);
    assert_eq!(e.timestamp, 1_500_000_000);
    assert_eq!(e.content, Some("gone".to_string()));
    assert_eq!(e.attachments, vec!["attachment_42.dat".to_string()]);
    assert_eq!(e.sender, "alice@example.com");
    let mut m = msg(-3, None, Some(77), None);
    m.date = -1_500_000_000;
    let e = create_deletion_event(&m, &h);
    assert_eq!(e.sender, "Unknown (ID: 77)");
    assert_eq!(e.timestamp, -1);
    assert!(e.attachments.is_empty());
    let mut m = msg(5, None, None, None);
    assert_eq!(create_deletion_event(&m, &h).sender, "Unknown");
    m.is_from_me = true;
    assert_eq!(create_deletion_event(&m, &h).sender, "Me");
}

#[test]
fn cache_admits_visible_filtered_new_messages() {
    let h = handles();
    let mut t = MessageTracker::new(Some("alice".to_string()));
    t.admit_messages(
        vec![
            msg(3, Some("hi"), Some(1), None),
            msg(4, Some("hi"), Some(2), None),
            msg(5, Some(" "), Some(1), None),
            msg(8, Some("again"), Some(1), None),
            msg(3, Some("dup"), Some(1), None),
        ],
        &h,
    );
    assert_eq!(t.tracked_ids(), vec![3, 8]);
    assert_eq!(t.max_cached_id(), 8);
    let empty = MessageTracker::new(None);
    assert_eq!(empty.max_cached_id(), 0);
}

#[test]
fn cache_scan_reports_silent_removals_once() {
    let h = handles();
    let mut t = MessageTracker::new(None);
    t.admit_messages(vec![msg(1, Some("one"), Some(1), None), msg(2, Some("two"), Some(2), None)], &h);
    let events = t.detect_deletions(
        vec![msg(1, None, Some(1), Some(10)), msg(2, Some("two"), Some(2), None), msg(9, None, None, Some(1))],
        &h,
    );
    assert_eq!(events.len(), 1);
    assert_eq!(events[0].message_id, 1);
    assert_eq!(events[0].content, Some("one".to_string()));
    let again = t.detect_deletions(vec![msg(1, None, Some(1), Some(10))], &h);
    assert!(again.is_empty());
    assert_eq!(t.tracked_ids(), vec![1, 2]);
}

#[test]
fn fingerprint_hashes_attachment_metadata() {
    let atts = vec![
        AttachmentMeta { filename: "a.png".to_string(), size: 3, modified: Some(9) },
        AttachmentMeta { filename: "b.png".to_string(), size: 4, modified: None },
    ];
    let f = build_current_fingerprint(Some(&msg(1, None, None, None)), &vec![], &atts, 0).unwrap();
    assert_eq!(
        f.attachment_hashes,
        vec![StateManager::hash_content("a.png:3:9"), StateManager::hash_content("b.png:4:0")]
    );
    assert_eq!(f.content_hash, StateManager::hash_content(""));
    assert_eq!(f.content, None);
}
