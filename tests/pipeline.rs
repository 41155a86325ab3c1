use imessage_undeleter::config::{
    DatabaseConfig, DeletionType, OutputConfig, OutputPlugin, StateConfig, TerminalFormat,
    TrackerConfig,
};
use imessage_undeleter::database::{build_current_fingerprint, Handle, RealMessage};
use imessage_undeleter::detection_engine::ItemSnapshot;
use imessage_undeleter::event_system::{DatabaseEvent, EventProcessor, WalMonitor, WalObservation};
use imessage_undeleter::fingerprint::DeletionRecord;
use imessage_undeleter::json::record_to_json;
use imessage_undeleter::output_plugins::{OutputManager, TerminalOutputHandler};
use imessage_undeleter::state_manager::{StateError, StateManager};
use imessage_undeleter::tracker::{DeletionTracker, TrackerAction, TrackerPhase};

fn db_config(limit: usize) -> DatabaseConfig {
    DatabaseConfig {
        imessage_db_path: "/data/chat.db".to_string(),
        wal_check_interval_ms: 10,
        max_batch_size: limit,
    }
}

fn state_config() -> StateConfig {
    StateConfig { state_db_path: "s.db".to_string(), retention_days: 30, enable_compression: false }
}

fn message(id: i32, text: Option<&str>) -> RealMessage {
    RealMessage {
        id,
        guid: format!("g{}", id),
        text: text.map(|t| t.to_string()),
        handle_id: None,
        date: 0,
        date_edited: None,
        date_retracted: None,
        is_from_me: true,
        cache_has_attachments: false,
    }
}

#[test]
fn default_config_values() {
    let c = TrackerConfig::default();
    assert_eq!(c.database.imessage_db_path, "~/Library/Messages/chat.db");
    assert_eq!(c.database.wal_check_interval_ms, 1000);
    assert_eq!(c.database.max_batch_size, 100);
    assert_eq!(c.state.state_db_path, "./tracker_state.db");
    assert_eq!(c.state.retention_days, 30);
    assert_eq!(c.detection.deletion_types, vec![DeletionType::FullMessage, DeletionType::AttachmentOnly]);
    assert!(!c.detection.track_edits_as_deletions);
    assert_eq!(c.outputs.len(), 2);
    assert!(matches!(c.outputs[0].plugin, OutputPlugin::Terminal { format: TerminalFormat::Colored }));
    match &c.outputs[1].plugin {
        OutputPlugin::Json { path, pretty } => {
            assert_eq!(path, "./deletions.json");
            assert!(*pretty);
        }
        _ => panic!("second sink is not the JSON file"),
    }
}

#[test]
fn wal_path_replaces_extension() {
    let m = WalMonitor::new(db_config(5));
    assert_eq!(m.get_wal_path(), "/data/chat.db-wal");
    let m = WalMonitor::new(DatabaseConfig {
        imessage_db_path: "/data/chat".to_string(),
        wal_check_interval_ms: 1,
        max_batch_size: 1,
    });
    assert_eq!(m.get_wal_path(), "/data/chat.db-wal");
}

#[test]
fn observer_skips_missing_log_and_reports_errors() {
    let mut m = WalMonitor::new_at(db_config(5), 100);
    assert!(m.check_for_changes(WalObservation::Missing, 200).unwrap().is_empty());
    assert_eq!(m.query_window(), (100, 5));
    let r = m.check_for_changes(WalObservation::Unreadable("gone".to_string()), 200);
    assert_eq!(r.unwrap_err(), "gone");
    let evs = m.poll(
        WalObservation::Sampled { size: 10, changed: Err("locked".to_string()) },
        300,
    );
    assert_eq!(evs.len(), 1);
    assert!(matches!(&evs[0], DatabaseEvent::MonitoringError(e) if e == "locked"));
    assert!(m.size_changed(10));
}

#[test]
fn observer_emits_bounded_batch_then_heartbeat() {
    let mut m = WalMonitor::new_at(db_config(2), 100);
    let evs = m
        .check_for_changes(WalObservation::Sampled { size: 64, changed: Ok(vec![7, 8, 9]) }, 150)
        .unwrap();
    assert_eq!(evs.len(), 2);
    assert!(matches!(&evs[0], DatabaseEvent::MessagesModified(ids) if *ids == vec![7, 8]));
    assert!(matches!(evs[1], DatabaseEvent::TransactionComplete { wal_size: 64, timestamp: 150 }));
    assert!(!m.size_changed(64));
    assert_eq!(m.query_window(), (150, 2));
    let evs = m
        .check_for_changes(WalObservation::Sampled { size: 64, changed: Ok(vec![1]) }, 160)
        .unwrap();
    assert!(evs.is_empty());
    assert_eq!(m.query_window(), (160, 2));
    let evs = m
        .check_for_changes(WalObservation::Sampled { size: 65, changed: Ok(vec![]) }, 170)
        .unwrap();
    assert_eq!(evs.len(), 1);
    assert!(matches!(evs[0], DatabaseEvent::TransactionComplete { wal_size: 65, .. }));
}

#[test]
fn event_processor_polls_its_monitor() {
    let mut p = EventProcessor::new(db_config(3));
    let evs = p.poll(WalObservation::Sampled { size: 1, changed: Ok(vec![4]) }, 5);
    assert_eq!(evs.len(), 2);
    assert!(!p.monitor().size_changed(1));
}

#[test]
fn output_manager_keeps_enabled_sinks_that_initialised() {
    let configs = vec![
        OutputConfig { plugin: OutputPlugin::Terminal { format: TerminalFormat::Plain }, enabled: true },
        OutputConfig {
            plugin: OutputPlugin::Webhook { url: "http://h".to_string(), auth_token: None },
            enabled: false,
        },
        OutputConfig {
            plugin: OutputPlugin::Json { path: "d.json".to_string(), pretty: false },
            enabled: true,
        },
        OutputConfig {
            plugin: OutputPlugin::Sqlite { path: "o.db".to_string(), table_name: "t".to_string() },
            enabled: true,
        },
    ];
    let mut om = OutputManager::new(&configs);
    assert_eq!(om.handler_count(), 3);
    assert_eq!((om.config_index(0), om.config_index(1), om.config_index(2)), (0, 2, 3));
    assert!(om.delivery_targets().is_empty());
    om.record_initialization(0, true);
    om.record_initialization(1, false);
    om.record_initialization(2, true);
    assert_eq!(om.delivery_targets(), vec![0, 2]);
}

fn sample_record() -> DeletionRecord {
    let fp = build_current_fingerprint(Some(&message(7, Some("hello"))), &vec![], &vec![], 0).unwrap();
    DeletionRecord {
        id: 1,
        message_id: 7,
        original_fingerprint: fp,
        deletion_timestamp: 0,
        deletion_type: "FullMessage".to_string(),
        recovered_content: Some("hello".to_string()),
        recovered_attachments: vec!["y".to_string()],
    }
}

#[test]
fn terminal_plain_rendering() {
    let h = TerminalOutputHandler::new(TerminalFormat::Plain);
    assert_eq!(h.name(), "Terminal");
    let text = h.format_deletion(&sample_record());
    assert_eq!(
        text,
        "DELETION DETECTED: Message 7 deleted at 1970-01-01 00:00:00\nContent: hello\nAttachments: [\"y\"]"
    );
    let mut r = sample_record();
    r.recovered_content = None;
    r.recovered_attachments = vec![];
    r.deletion_timestamp = i64::MAX;
    assert_eq!(
        h.format_deletion(&r),
        "DELETION DETECTED: Message 7 deleted at Unknown\nContent: [No content]\nAttachments: []"
    );
}

#[test]
fn terminal_colored_and_json_rendering() {
    let h = TerminalOutputHandler::new(TerminalFormat::Colored);
    let text = h.format_deletion(&sample_record());
    assert!(text.starts_with("\x1b[31m"));
    assert!(text.contains("\x1b[0m 7\n"));
    assert!(text.ends_with("[\"y\"]"));
    assert!(h.start_banner().contains("Started"));
    let h = TerminalOutputHandler::new(TerminalFormat::Json);
    assert_eq!(h.format_deletion(&sample_record()), record_to_json(&sample_record(), true));
    assert!(h.stop_banner().contains("Stopped"));
}

fn tracker_config() -> TrackerConfig {
    let mut c = TrackerConfig::default();
    c.database = db_config(100);
    c
}

#[test]
fn end_to_end_vanished_item_is_journaled_once() {
    let mut store = StateManager::new(state_config());
    let seed = build_current_fingerprint(Some(&message(7, Some("hello"))), &vec![], &vec![], 1000).unwrap();
    assert!(seed.attachment_hashes.is_empty());
    store.store_fingerprint(&seed);
    let mut t = DeletionTracker::new(tracker_config(), store, 1000);
    assert_eq!(t.phase(), TrackerPhase::Initializing);
    for slot in 0..t.output_manager().handler_count() {
        t.record_sink_initialization(slot, true);
    }
    t.start();
    assert_eq!(t.phase(), TrackerPhase::Running);
    let events = t.poll(WalObservation::Sampled { size: 4096, changed: Ok(vec![7]) }, 1001);
    assert!(matches!(&events[0], DatabaseEvent::MessagesModified(ids) if *ids == vec![7]));
    let mut records = vec![];
    for ev in events {
        if let TrackerAction::ResolveItems(ids) = t.handle_event(ev, 1001) {
            let snaps: Vec<ItemSnapshot> = ids
                .iter()
                .map(|id| ItemSnapshot {
                    message_id: *id,
                    current: build_current_fingerprint(None, &vec![], &vec![], 1001),
                })
                .collect();
            records.extend(t.process_changes(&snaps, 1001).unwrap());
        }
    }
    assert_eq!(records.len(), 1);
    assert_eq!(records[0].message_id, 7);
    assert_eq!(records[0].id, 1);
    assert_eq!(records[0].deletion_type, "FullMessage");
    assert_eq!(records[0].recovered_content, Some("hello".to_string()));
    assert_eq!(t.state_manager().deletion_list().len(), 1);
    assert_eq!(t.state_manager().deletion_list()[0].message_id, 7);
    let targets = t.output_manager().delivery_targets();
    assert_eq!(targets, vec![0, 1]);
    assert_eq!(t.output_manager().config_index(1), 1);
    let entry = record_to_json(&records[0], false);
    assert_eq!(entry.lines().count(), 1);
    assert!(entry.starts_with("{\"id\":1,\"message_id\":7,\"original_fingerprint\":{\"message_id\":7,"));
    assert!(entry.ends_with(",\"deletion_type\":\"FullMessage\",\"recovered_content\":\"hello\",\"recovered_attachments\":[]}"));
    assert_eq!(t.get_stats(1001).total_deletions_detected, 1);
}

#[test]
fn tracker_purges_at_start_and_ignores_events_before_running() {
    let mut store = StateManager::new(state_config());
    let old = build_current_fingerprint(Some(&message(1, Some("a"))), &vec![], &vec![], 0).unwrap();
    store.store_fingerprint(&old);
    let mut t = DeletionTracker::new(tracker_config(), store, 31 * 86400);
    assert!(t.state_manager().get_fingerprint(1).is_none());
    assert!(matches!(t.handle_event(DatabaseEvent::MessagesModified(vec![1]), 5), TrackerAction::Nothing));
}

#[test]
fn repeated_observer_errors_drain_the_tracker() {
    let mut t = DeletionTracker::new(tracker_config(), StateManager::new(state_config()), 0);
    t.start();
    for _ in 0..4 {
        let a = t.handle_event(DatabaseEvent::MonitoringError("x".to_string()), 1);
        assert!(matches!(a, TrackerAction::ReportError(ref e) if e == "x"));
    }
    assert!(matches!(
        t.handle_event(DatabaseEvent::TransactionComplete { wal_size: 2_000_000, timestamp: 1 }, 1),
        TrackerAction::ReportDiagnostics { wal_size: 2_000_000 }
    ));
    for _ in 0..4 {
        t.handle_event(DatabaseEvent::MonitoringError("x".to_string()), 1);
    }
    assert_eq!(t.phase(), TrackerPhase::Running);
    assert!(matches!(t.handle_event(DatabaseEvent::MonitoringError("x".to_string()), 1), TrackerAction::Drain));
    assert_eq!(t.phase(), TrackerPhase::Draining);
    t.finish_draining();
    assert_eq!(t.phase(), TrackerPhase::Stopped);
    t.request_shutdown();
    assert_eq!(t.phase(), TrackerPhase::Stopped);
}

#[test]
fn shutdown_drains_then_stops() {
    let mut t = DeletionTracker::new(tracker_config(), StateManager::new(state_config()), 0);
    t.start();
    assert!(matches!(
        t.handle_event(DatabaseEvent::TransactionComplete { wal_size: 5, timestamp: 1 }, 1),
        TrackerAction::Nothing
    ));
    assert!(matches!(t.handle_event(DatabaseEvent::MessagesModified(vec![]), 1), TrackerAction::Nothing));
    t.request_shutdown();
    assert_eq!(t.phase(), TrackerPhase::Draining);
    t.finish_draining();
    assert_eq!(t.phase(), TrackerPhase::Stopped);
    assert_eq!(t.get_stats(10).uptime_seconds, 10);
    assert_eq!(t.get_stats(10).events_processed, 2);
}

#[test]
fn batch_fails_when_journal_ids_run_out() {
    let store = StateManager::restore(state_config(), vec![], vec![], i64::MAX - 1).unwrap();
    let mut t = DeletionTracker::new(tracker_config(), store, 0);
    let snaps = vec![
        ItemSnapshot { message_id: 1, current: None },
        ItemSnapshot { message_id: 2, current: None },
    ];
    assert!(matches!(t.process_changes(&snaps, 1), Err(StateError::JournalExhausted)));
    assert!(t.process_changes(&snaps[..1].to_vec(), 1).unwrap().is_empty());
}

#[test]
fn current_fingerprint_of_retracted_or_missing_is_none() {
    let mut m = message(3, Some("hi"));
    m.handle_id = Some(5);
    let handles = vec![Handle { id: 5, identifier: "+100".to_string(), service: "SMS".to_string() }];
    let f = build_current_fingerprint(Some(&m), &handles, &vec![], 9).unwrap();
    assert_eq!(f.sender_handle, Some("+100".to_string()));
    assert_eq!(f.content_hash, StateManager::hash_content("hi"));
    assert_eq!(f.timestamp, 9);
    m.date_retracted = Some(1);
    assert!(build_current_fingerprint(Some(&m), &handles, &vec![], 9).is_none());
    assert!(build_current_fingerprint(None, &handles, &vec![], 9).is_none());
}
