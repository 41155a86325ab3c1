use imessage_undeleter::config::StateConfig;
use imessage_undeleter::fingerprint::{DeletionRecord, MessageFingerprint};
use imessage_undeleter::state_manager::{StateError, StateManager};

fn state_config() -> StateConfig {
    StateConfig {
        state_db_path: "./state.db".to_string(),
        retention_days: 30,
        enable_compression: false,
    }
}

fn fp(id: i32, hash: &str, atts: &[&str], ts: i64) -> MessageFingerprint {
    MessageFingerprint {
        message_id: id,
        content_hash: hash.to_string(),
        attachment_hashes: atts.iter().map(|a| a.to_string()).collect(),
        timestamp: ts,
        conversation_id: None,
        sender_handle: None,
        content: Some(format!("text of {}", hash)),
    }
}

fn record(item: i32, ts: i64) -> DeletionRecord {
    DeletionRecord {
        id: 0,
        message_id: item,
        original_fingerprint: fp(item, "A", &[], ts),
        deletion_timestamp: ts,
        deletion_type: "FullMessage".to_string(),
        recovered_content: None,
        recovered_attachments: vec![],
    }
}

#[test]
fn last_put_wins_for_same_id() {
    let mut st = StateManager::new(state_config());
    st.store_fingerprint(&fp(3, "A", &["x"], 10));
    st.store_fingerprint(&fp(3, "B", &[], 11));
    st.store_fingerprint(&fp(3, "C", &["y", "z"], 12));
    let got = st.get_fingerprint(3).unwrap();
    assert_eq!(got.content_hash, "C");
    assert_eq!(got.attachment_hashes, vec!["y".to_string(), "z".to_string()]);
    assert_eq!(got.timestamp, 12);
    assert_eq!(st.fingerprint_list().len(), 1);
}

#[test]
fn get_of_unknown_id_is_none() {
    let mut st = StateManager::new(state_config());
    assert!(st.get_fingerprint(1).is_none());
    st.store_fingerprint(&fp(2, "A", &[], 1));
    assert!(st.get_fingerprint(1).is_none());
    assert!(st.get_fingerprint(2).is_some());
}

#[test]
fn batch_store_applies_in_order() {
    let mut st = StateManager::new(state_config());
    st.batch_store_fingerprints(&vec![fp(1, "A", &[], 1), fp(2, "B", &[], 1), fp(1, "C", &[], 2)]);
    assert_eq!(st.get_fingerprint(1).unwrap().content_hash, "C");
    assert_eq!(st.get_fingerprint(2).unwrap().content_hash, "B");
    assert_eq!(st.fingerprint_list().len(), 2);
}

#[test]
fn journal_ids_strictly_increase() {
    let mut st = StateManager::new(state_config());
    let a = st.store_deletion(&record(1, 100)).unwrap();
    let b = st.store_deletion(&record(2, 100)).unwrap();
    let c = st.store_deletion(&record(1, 50)).unwrap();
    assert_eq!((a, b, c), (1, 2, 3));
    assert_eq!(st.next_deletion_id(), 4);
    let ids: Vec<i64> = st.deletion_list().iter().map(|d| d.id).collect();
    assert_eq!(ids, vec![1, 2, 3]);
}

#[test]
fn journal_ids_not_reused_after_purge_and_restart() {
    let mut st = StateManager::new(state_config());
    st.store_deletion(&record(1, 10)).unwrap();
    st.store_deletion(&record(2, 20)).unwrap();
    st.purge_older_than(100);
    assert_eq!(st.deletion_list().len(), 0);
    let restored = StateManager::restore(
        state_config(),
        st.fingerprint_list().clone(),
        st.deletion_list().clone(),
        st.next_deletion_id(),
    );
    let mut restored = restored.unwrap();
    assert_eq!(restored.store_deletion(&record(3, 30)).unwrap(), 3);
}

#[test]
fn purge_removes_only_entries_before_cutoff() {
    let mut st = StateManager::new(state_config());
    st.store_fingerprint(&fp(1, "A", &[], 99));
    st.store_fingerprint(&fp(2, "B", &[], 100));
    st.store_fingerprint(&fp(3, "C", &[], 101));
    st.store_deletion(&record(1, 99)).unwrap();
    st.store_deletion(&record(2, 100)).unwrap();
    st.store_deletion(&record(3, 101)).unwrap();
    st.purge_older_than(100);
    assert!(st.get_fingerprint(1).is_none());
    assert_eq!(st.get_fingerprint(2).unwrap().content_hash, "B");
    assert_eq!(st.get_fingerprint(3).unwrap().content_hash, "C");
    let left: Vec<(i64, i32)> = st.deletion_list().iter().map(|d| (d.id, d.message_id)).collect();
    assert_eq!(left, vec![(2, 2), (3, 3)]);
    assert_eq!(st.next_deletion_id(), 4);
}

#[test]
fn cleanup_uses_retention_horizon() {
    let mut st = StateManager::new(state_config());
    let now: i64 = 1_000_000_000;
    let day: i64 = 86400;
    st.store_fingerprint(&fp(1, "A", &[], now - 31 * day));
    st.store_fingerprint(&fp(2, "B", &[], now - 30 * day));
    st.cleanup_old_records(now);
    assert!(st.get_fingerprint(1).is_none());
    assert!(st.get_fingerprint(2).is_some());
}

#[test]
fn cleanup_near_smallest_time_purges_nothing() {
    let mut st = StateManager::new(state_config());
    st.store_fingerprint(&fp(1, "A", &[], i64::MIN));
    st.cleanup_old_records(i64::MIN + 5);
    assert!(st.get_fingerprint(1).is_some());
}

#[test]
fn restart_keeps_survivors_identical() {
    let mut st = StateManager::new(state_config());
    st.store_fingerprint(&fp(1, "A", &["x"], 5));
    st.store_fingerprint(&fp(2, "B", &["y", "z"], 500));
    st.store_deletion(&record(2, 5)).unwrap();
    st.store_deletion(&record(1, 600)).unwrap();
    st.purge_older_than(100);
    let restored = StateManager::restore(
        state_config(),
        st.fingerprint_list().clone(),
        st.deletion_list().clone(),
        st.next_deletion_id(),
    )
    .unwrap();
    assert!(restored.get_fingerprint(1).is_none());
    let b = restored.get_fingerprint(2).unwrap();
    let original = st.get_fingerprint(2).unwrap();
    assert_eq!(format!("{:?}", b), format!("{:?}", original));
    assert_eq!(restored.deletion_list().len(), 1);
    assert_eq!(restored.deletion_list()[0].id, 2);
    assert_eq!(
        format!("{:?}", restored.deletion_list()[0]),
        format!("{:?}", st.deletion_list()[0])
    );
    assert_eq!(restored.next_deletion_id(), 3);
}

#[test]
fn restore_refuses_duplicate_fingerprints() {
    let r = StateManager::restore(state_config(), vec![fp(4, "A", &[], 1), fp(4, "B", &[], 2)], vec![], 1);
    assert!(matches!(r, Err(StateError::DuplicateFingerprint(4))));
}

#[test]
fn restore_refuses_unordered_journal() {
    let mut a = record(1, 1);
    a.id = 2;
    let mut b = record(1, 1);
    b.id = 2;
    let r = StateManager::restore(state_config(), vec![], vec![a, b], 5);
    assert!(matches!(r, Err(StateError::JournalOutOfOrder)));
    let mut c = record(1, 1);
    c.id = 5;
    let r = StateManager::restore(state_config(), vec![], vec![c], 5);
    assert!(matches!(r, Err(StateError::JournalOutOfOrder)));
    let r = StateManager::restore(state_config(), vec![], vec![], 0);
    assert!(matches!(r, Err(StateError::JournalOutOfOrder)));
}

#[test]
fn exhausted_journal_refuses_append() {
    let mut st = StateManager::restore(state_config(), vec![], vec![], i64::MAX).unwrap();
    assert!(matches!(st.store_deletion(&record(1, 1)), Err(StateError::JournalExhausted)));
    assert_eq!(st.deletion_list().len(), 0);
}

#[test]
fn range_query_is_latest_first() {
    let mut st = StateManager::new(state_config());
    st.store_deletion(&record(1, 20)).unwrap();
    st.store_deletion(&record(2, 40)).unwrap();
    st.store_deletion(&record(3, 30)).unwrap();
    st.store_deletion(&record(4, 40)).unwrap();
    st.store_deletion(&record(5, 50)).unwrap();
    let got: Vec<(i64, i64)> = st
        .get_deletions_in_range(20, 40)
        .iter()
        .map(|d| (d.id, d.deletion_timestamp))
        .collect();
    assert_eq!(got, vec![(4, 40), (2, 40), (3, 30), (1, 20)]);
    assert!(st.get_deletions_in_range(41, 49).is_empty());
}

#[test]
fn content_hash_is_blake3_hex() {
    assert_eq!(
        StateManager::hash_content(""),
        "af1349b9f5f9a1a6a0404dea36dcc9499bcb25c9adc112b7cc9a93cae41f3262"
    );
    let h = StateManager::hash_content("hello");
    assert_eq!(h.len(), 64);
    assert_ne!(h, "hello");
    assert_ne!(h, StateManager::hash_content("hello!"));
}

#[test]
fn attachment_hash_covers_metadata_only() {
    assert_eq!(
        StateManager::hash_attachment("a.jpg", 10, Some(-5)),
        StateManager::hash_content("a.jpg:10:-5")
    );
    assert_eq!(
        StateManager::hash_attachment("a.jpg", 10, None),
        StateManager::hash_content("a.jpg:10:0")
    );
    assert_eq!(
        StateManager::hash_attachment("b", u64::MAX, Some(i64::MIN)),
        StateManager::hash_content("b:18446744073709551615:-9223372036854775808")
    );
}
