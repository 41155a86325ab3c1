use imessage_undeleter::config::{DeletionType, DetectionConfig, StateConfig, TrackerConfig};
use imessage_undeleter::detection_engine::{
    removed_attachments, DeletionDetector, DetectionContext, DetectionEngine, ItemSnapshot,
};
use imessage_undeleter::event_system::DatabaseEvent;
use imessage_undeleter::fingerprint::MessageFingerprint;
use imessage_undeleter::state_manager::StateManager;

fn fp(id: i32, hash: &str, atts: &[&str]) -> MessageFingerprint {
    MessageFingerprint {
        message_id: id,
        content_hash: hash.to_string(),
        attachment_hashes: atts.iter().map(|a| a.to_string()).collect(),
        timestamp: 1,
        conversation_id: None,
        sender_handle: None,
        content: Some("previous text".to_string()),
    }
}

fn detection(types: Vec<DeletionType>, edits: bool) -> DetectionConfig {
    DetectionConfig {
        deletion_types: types,
        track_edits_as_deletions: edits,
        content_change_is_full_deletion: false,
        recover_edited_content: false,
        conversation_filters: vec![],
    }
}

fn all_types() -> Vec<DeletionType> {
    vec![DeletionType::FullMessage, DeletionType::AttachmentOnly, DeletionType::PartialEdit]
}

fn store() -> StateManager {
    StateManager::new(StateConfig {
        state_db_path: "s.db".to_string(),
        retention_days: 1,
        enable_compression: false,
    })
}

#[test]
fn vanished_item_is_full_deletion_not_attachment() {
    let engine = DetectionEngine::new(detection(all_types(), true));
    let prev = fp(1, "A", &["x", "y"]);
    let r = engine.classify(1, None, Some(&prev)).unwrap();
    assert_eq!(r.deletion_type, DeletionType::FullMessage);
    assert_eq!(r.recovered_content, Some("previous text".to_string()));
    assert_eq!(r.recovered_attachments, vec!["x".to_string(), "y".to_string()]);
    let ctx = DetectionContext { config: detection(all_types(), true) };
    assert!(DeletionDetector::AttachmentOnly.detect_deletion(1, None, Some(&prev), &ctx).is_none());
}

#[test]
fn removed_attachment_is_attachment_only() {
    let engine = DetectionEngine::new(detection(all_types(), false));
    let prev = fp(1, "A", &["x", "y"]);
    let curr = fp(1, "A", &["x"]);
    let r = engine.classify(1, Some(&curr), Some(&prev)).unwrap();
    assert_eq!(r.deletion_type, DeletionType::AttachmentOnly);
    assert_eq!(r.recovered_attachments, vec!["y".to_string()]);
    assert_eq!(r.recovered_content, None);
    let ctx = DetectionContext { config: detection(all_types(), false) };
    assert!(DeletionDetector::FullMessage.detect_deletion(1, Some(&curr), Some(&prev), &ctx).is_none());
}

#[test]
fn untracked_edit_fires_nothing() {
    let engine = DetectionEngine::new(detection(all_types(), false));
    let prev = fp(1, "A", &[]);
    let curr = fp(1, "B", &[]);
    assert!(engine.classify(1, Some(&curr), Some(&prev)).is_none());
}

#[test]
fn tracked_edit_is_partial_edit() {
    let engine = DetectionEngine::new(detection(all_types(), true));
    let prev = fp(1, "A", &[]);
    let curr = fp(1, "B", &[]);
    let r = engine.classify(1, Some(&curr), Some(&prev)).unwrap();
    assert_eq!(r.deletion_type, DeletionType::PartialEdit);
    assert_eq!(r.recovered_content, None);
    let mut cfg = detection(all_types(), true);
    cfg.recover_edited_content = true;
    let engine = DetectionEngine::new(cfg);
    let r = engine.classify(1, Some(&curr), Some(&prev)).unwrap();
    assert_eq!(r.recovered_content, Some("previous text".to_string()));
}

#[test]
fn content_replacement_counts_as_full_when_configured() {
    let mut cfg = detection(all_types(), true);
    cfg.content_change_is_full_deletion = true;
    let engine = DetectionEngine::new(cfg);
    let prev = fp(1, "A", &["x", "y"]);
    let curr = fp(1, "B", &["y"]);
    let r = engine.classify(1, Some(&curr), Some(&prev)).unwrap();
    assert_eq!(r.deletion_type, DeletionType::FullMessage);
    assert_eq!(r.recovered_attachments, vec!["x".to_string()]);
}

#[test]
fn disabled_type_removes_its_classifier() {
    let engine = DetectionEngine::new(detection(vec![DeletionType::AttachmentOnly], true));
    assert_eq!(engine.detectors().clone(), vec![DeletionDetector::AttachmentOnly]);
    let prev = fp(1, "A", &["x"]);
    assert!(engine.classify(1, None, Some(&prev)).is_none());
    let engine = DetectionEngine::new(detection(vec![DeletionType::MediaContent], true));
    assert!(engine.detectors().is_empty());
    let engine = DetectionEngine::new(detection(
        vec![DeletionType::PartialEdit, DeletionType::FullMessage],
        true,
    ));
    assert_eq!(
        engine.detectors().clone(),
        vec![DeletionDetector::FullMessage, DeletionDetector::PartialEdit]
    );
}

#[test]
fn nothing_fires_without_previous_fingerprint() {
    let engine = DetectionEngine::new(detection(all_types(), true));
    let curr = fp(1, "A", &[]);
    assert!(engine.classify(1, Some(&curr), None).is_none());
    assert!(engine.classify(1, None, None).is_none());
}

#[test]
fn detector_names_and_types() {
    assert_eq!(DeletionDetector::FullMessage.name(), "FullMessageDeletion");
    assert_eq!(DeletionDetector::AttachmentOnly.name(), "AttachmentDeletion");
    assert_eq!(DeletionDetector::PartialEdit.name(), "PartialEdit");
    assert_eq!(DeletionDetector::PartialEdit.supported_types(), vec![DeletionType::PartialEdit]);
}

#[test]
fn removed_attachments_keeps_order_of_previous() {
    let prev = vec!["a".to_string(), "b".to_string(), "c".to_string(), "b".to_string()];
    let curr = vec!["c".to_string()];
    assert_eq!(
        removed_attachments(&prev, &curr),
        vec!["a".to_string(), "b".to_string(), "b".to_string()]
    );
    assert!(removed_attachments(&curr, &prev).is_empty());
}

#[test]
fn analysis_stores_baseline_and_reports_once() {
    let engine = DetectionEngine::new(TrackerConfig::default().detection);
    let mut st = store();
    st.store_fingerprint(&fp(1, "A", &["x", "y"]));
    let snaps = vec![ItemSnapshot { message_id: 1, current: Some(fp(1, "A", &["x"])) }];
    let recs = engine.analyze_message_changes(&snaps, &mut st, 77);
    assert_eq!(recs.len(), 1);
    assert_eq!(recs[0].id, 0);
    assert_eq!(recs[0].message_id, 1);
    assert_eq!(recs[0].deletion_timestamp, 77);
    assert_eq!(recs[0].deletion_type, "AttachmentOnly");
    assert_eq!(recs[0].original_fingerprint.attachment_hashes.len(), 2);
    assert_eq!(st.get_fingerprint(1).unwrap().attachment_hashes, vec!["x".to_string()]);
    let again = engine.analyze_message_changes(&snaps, &mut st, 78);
    assert!(again.is_empty());
}

#[test]
fn analysis_of_unknown_item_only_records_baseline() {
    let engine = DetectionEngine::new(TrackerConfig::default().detection);
    let mut st = store();
    let snaps = vec![
        ItemSnapshot { message_id: 9, current: Some(fp(9, "A", &[])) },
        ItemSnapshot { message_id: 10, current: None },
    ];
    let recs = engine.analyze_message_changes(&snaps, &mut st, 1);
    assert!(recs.is_empty());
    assert!(st.get_fingerprint(9).is_some());
    assert!(st.get_fingerprint(10).is_none());
}

#[test]
fn process_event_ignores_other_events() {
    let engine = DetectionEngine::new(TrackerConfig::default().detection);
    let mut st = store();
    st.store_fingerprint(&fp(1, "A", &[]));
    let snaps = vec![ItemSnapshot { message_id: 1, current: None }];
    let ev = DatabaseEvent::MessagesAdded(vec![1]);
    assert!(engine.process_event(&ev, &snaps, &mut st, 5).is_empty());
    let ev = DatabaseEvent::MessagesModified(vec![1]);
    let recs = engine.process_event(&ev, &snaps, &mut st, 5);
    assert_eq!(recs.len(), 1);
    assert_eq!(recs[0].deletion_type, "FullMessage");
}
