//! The coordinator: it owns the store, the classifier engine and the sink
//! plan, sequences poll, classify, persist and dispatch, and walks through
//! the phases `Idle -> Initializing -> Running -> Draining -> Stopped`.
//!
//! The caller runs the loop: it feeds observations and events in, performs
//! the action handed back (resolving items against the monitored store,
//! delivering records to sinks), and reports the outcome.

use vstd::prelude::*;
use crate::config::TrackerConfig;
use crate::fingerprint::{DeletionRecord, RecordView, FingerprintView};
use crate::state_manager::{
    StateManager, StateError, record_views, with_id, fingerprints_since, journal_since,
    retention_cutoff,
};
use crate::detection_engine::{
    DetectionEngine, DeletionDetector, ItemSnapshot, analysis, snapshot_views, active_detectors,
};
use crate::event_system::{
    DatabaseEvent, EventProcessor, EventView, WalObservation, change_events, event_views,
    path_with_extension_of,
};
use crate::output_plugins::{OutputManager, enabled_indices};

verus! {

/// Consecutive observer failures after which the tracker drains.
pub const MAX_CONSECUTIVE_OBSERVER_ERRORS: u32 = 5;

/// Wal size step at which a heartbeat is reported for diagnostics.
pub const DIAGNOSTICS_WAL_STEP: u64 = 1000000;

/// Lifecycle phase of a tracker.
#[derive(Debug, Clone, Copy, PartialEq, Eq, Structural)]
pub enum TrackerPhase {
    Idle,
    Initializing,
    Running,
    Draining,
    Stopped,
}

/// What the caller does after handing the tracker an event.
#[derive(Debug, Clone)]
pub enum TrackerAction {
    /// Nothing.
    Nothing,
    /// Resolve the current fingerprints of these items and hand them to
    /// [`DeletionTracker::process_changes`].
    ResolveItems(Vec<i32>),
    /// Log periodic diagnostics about the mutation log.
    ReportDiagnostics { wal_size: u64 },
    /// Log an observer error; the loop goes on.
    ReportError(String),
    /// Observer failures repeated: finalise every sink and stop.
    Drain,
}

/// Counters of a run.
#[derive(Debug, Clone, Copy)]
pub struct TrackerStats {
    pub total_deletions_detected: u64,
    pub uptime_seconds: u64,
    pub events_processed: u64,
    /// When the last event was handled, in seconds since the Unix epoch.
    pub last_event_time: Option<i64>,
}

/// `recs` with consecutive journal ids starting at `first`.
pub open spec fn numbered(recs: Seq<RecordView>, first: i64) -> Seq<RecordView> {
    Seq::new(recs.len(), |k: int| with_id(recs[k], (first + k) as i64))
}

/// An analysis reports at most one record per item.
pub proof fn lemma_at_most_one_record_per_item(
    ds: Seq<DeletionDetector>,
    config: crate::config::DetectionConfig,
    m: Map<i32, FingerprintView>,
    items: Seq<(i32, Option<FingerprintView>)>,
    now: i64,
)
    ensures
        analysis(ds, config, m, items, now).1.len() <= items.len(),
    decreases items.len(),
{
    if items.len() > 0 {
        lemma_at_most_one_record_per_item(ds, config, m, items.drop_last(), now);
    }
}

/// Adds one to a counter, stopping at its largest value.
fn bump(n: u64) -> (r: u64)
    ensures
        r == if n < u64::MAX {
            (n + 1) as u64
        } else {
            n
        },
{
    if n < u64::MAX {
        n + 1
    } else {
        n
    }
}

/// The coordinator of one run.
pub struct DeletionTracker {
    phase: TrackerPhase,
    event_processor: EventProcessor,
    state_manager: StateManager,
    detection_engine: DetectionEngine,
    output_manager: OutputManager,
    started_at: i64,
    events_processed: u64,
    deletions_detected: u64,
    last_event_time: Option<i64>,
    consecutive_errors: u32,
}

impl DeletionTracker {
    pub closed spec fn spec_phase(&self) -> TrackerPhase {
        self.phase
    }

    pub closed spec fn spec_store(&self) -> StateManager {
        self.state_manager
    }

    pub closed spec fn spec_engine(&self) -> DetectionEngine {
        self.detection_engine
    }

    pub closed spec fn spec_outputs(&self) -> OutputManager {
        self.output_manager
    }

    pub closed spec fn spec_errors(&self) -> u32 {
        self.consecutive_errors
    }

    pub closed spec fn spec_deletions_detected(&self) -> u64 {
        self.deletions_detected
    }

    pub closed spec fn spec_processor(&self) -> EventProcessor {
        self.event_processor
    }

    pub closed spec fn spec_events_processed(&self) -> u64 {
        self.events_processed
    }

    pub closed spec fn spec_started_at(&self) -> i64 {
        self.started_at
    }

    pub closed spec fn spec_last_event_time(&self) -> Option<i64> {
        self.last_event_time
    }

    /// The tracker's internal consistency.
    pub closed spec fn wf(&self) -> bool {
        &&& self.state_manager.wf()
        &&& self.output_manager.spec_ready().len() == self.output_manager.spec_handlers().len()
    }

    /// A tracker in the initialising phase, started at `now`: the store
    /// `state_manager`, as a previous run left it, has had its one-time
    /// retention purge; the engine runs the classifiers `config` enables;
    /// the enabled sinks wait for their initialisation to be reported.
    pub fn new(config: TrackerConfig, state_manager: StateManager, now: i64) -> (r: DeletionTracker)
        requires
            state_manager.wf(),
        ensures
            r.wf(),
            r.spec_phase() == TrackerPhase::Initializing,
            r.spec_store()@.fingerprints == fingerprints_since(
                state_manager@.fingerprints,
                retention_cutoff(now, state_manager.spec_config().retention_days),
            ),
            r.spec_store()@.journal == journal_since(
                state_manager@.journal,
                retention_cutoff(now, state_manager.spec_config().retention_days),
            ),
            r.spec_store()@.next_id == state_manager@.next_id,
            r.spec_engine().spec_detectors() == active_detectors(config.detection.deletion_types@),
            r.spec_engine().spec_config() == config.detection,
            r.spec_outputs().spec_handlers() == enabled_indices(config.outputs@),
            r.spec_errors() == 0,
            r.spec_deletions_detected() == 0,
    {
        let mut store = state_manager;
        store.cleanup_old_records(now);
        let output_manager = OutputManager::new(&config.outputs);
        DeletionTracker {
            phase: TrackerPhase::Initializing,
            event_processor: EventProcessor::new(config.database),
            state_manager: store,
            detection_engine: DetectionEngine::new(config.detection),
            output_manager,
            started_at: now,
            events_processed: 0,
            deletions_detected: 0,
            last_event_time: None,
            consecutive_errors: 0,
        }
    }

    /// The current phase.
    pub fn phase(&self) -> (r: TrackerPhase)
        ensures
            r == self.spec_phase(),
    {
        self.phase
    }

    /// The store.
    pub fn state_manager(&self) -> (r: &StateManager)
        ensures
            *r == self.spec_store(),
    {
        &self.state_manager
    }

    /// The sink plan.
    pub fn output_manager(&self) -> (r: &OutputManager)
        ensures
            *r == self.spec_outputs(),
    {
        &self.output_manager
    }

    /// Records whether the `slot`-th sink initialised; a sink that did not
    /// is left out of the run, which goes on.
    pub fn record_sink_initialization(&mut self, slot: usize, ok: bool)
        requires
            old(self).wf(),
            slot < old(self).spec_outputs().spec_handlers().len(),
        ensures
            final(self).wf(),
            final(self).spec_phase() == old(self).spec_phase(),
            final(self).spec_store() == old(self).spec_store(),
            final(self).spec_outputs().spec_handlers() == old(self).spec_outputs().spec_handlers(),
            final(self).spec_outputs().spec_ready() == old(self).spec_outputs().spec_ready().update(
                slot as int,
                ok,
            ),
    {
        self.output_manager.record_initialization(slot, ok);
    }

    /// Leaves initialisation for the running phase; in any other phase,
    /// nothing changes.
    pub fn start(&mut self)
        requires
            old(self).wf(),
        ensures
            final(self).wf(),
            old(self).spec_phase() == TrackerPhase::Initializing ==> final(self).spec_phase()
                == TrackerPhase::Running,
            old(self).spec_phase() != TrackerPhase::Initializing ==> final(self).spec_phase()
                == old(self).spec_phase(),
            final(self).spec_store() == old(self).spec_store(),
    {
        if self.phase == TrackerPhase::Initializing {
            self.phase = TrackerPhase::Running;
        }
    }

    /// Path of the monitored store's mutation log.
    pub fn wal_path(&self) -> (r: String)
        ensures
            r@ == path_with_extension_of(
                self.spec_processor().spec_monitor().spec_config().imessage_db_path@,
                "db-wal"@,
            ),
    {
        self.event_processor.monitor().get_wal_path()
    }

    /// Since when, and at most how many, changed items the monitored store
    /// should be asked for on the next tick.
    pub fn query_window(&self) -> (r: (i64, usize))
        ensures
            r == (
                self.spec_processor().spec_monitor().spec_last_check(),
                self.spec_processor().spec_monitor().spec_config().max_batch_size,
            ),
    {
        self.event_processor.monitor().query_window()
    }

    /// Whether a mutation log of `size` bytes differs from the last sample,
    /// so that the monitored store has to be asked which items changed.
    pub fn size_changed(&self, size: u64) -> (r: bool)
        ensures
            r == (size != self.spec_processor().spec_monitor().spec_last_size()),
    {
        self.event_processor.monitor().size_changed(size)
    }

    /// One observer tick: see [`crate::event_system::WalMonitor::poll`].
    pub fn poll(&mut self, observation: WalObservation, now: i64) -> (r: Vec<DatabaseEvent>)
        requires
            old(self).wf(),
        ensures
            final(self).wf(),
            final(self).spec_phase() == old(self).spec_phase(),
            final(self).spec_store() == old(self).spec_store(),
            final(self).spec_engine() == old(self).spec_engine(),
            final(self).spec_outputs() == old(self).spec_outputs(),
            final(self).spec_processor().spec_monitor().spec_config() == old(
                self,
            ).spec_processor().spec_monitor().spec_config(),
            match observation {
                WalObservation::Missing => r@.len() == 0,
                WalObservation::Unreadable(e) => r@.len() == 1 && r@[0]@ == EventView::Failure(e@),
                WalObservation::Sampled { size, changed } => if size == old(
                    self,
                ).spec_processor().spec_monitor().spec_last_size() {
                    r@.len() == 0
                } else {
                    match changed {
                        Err(e) => r@.len() == 1 && r@[0]@ == EventView::Failure(e@),
                        Ok(ids) => event_views(r@) == change_events(
                            ids@,
                            old(self).spec_processor().spec_monitor().spec_config().max_batch_size,
                            size,
                            now,
                        ),
                    }
                },
            },
    {
        self.event_processor.poll(observation, now)
    }

    /// Handles one observer event at time `now` while running; in any other
    /// phase the event is ignored.
    ///
    /// A modification asks for the changed items to be resolved (nothing
    /// when there are none). A heartbeat asks for diagnostics at every
    /// multiple of [`DIAGNOSTICS_WAL_STEP`] bytes. An observer error is
    /// reported; after [`MAX_CONSECUTIVE_OBSERVER_ERRORS`] in a row the
    /// tracker drains. Any other event clears the run of errors.
    pub fn handle_event(&mut self, event: DatabaseEvent, now: i64) -> (r: TrackerAction)
        requires
            old(self).wf(),
        ensures
            final(self).wf(),
            final(self).spec_store() == old(self).spec_store(),
            final(self).spec_outputs() == old(self).spec_outputs(),
            final(self).spec_engine() == old(self).spec_engine(),
            old(self).spec_phase() != TrackerPhase::Running ==> r is Nothing && final(self).spec_phase()
                == old(self).spec_phase() && final(self).spec_events_processed() == old(
                self,
            ).spec_events_processed(),
            old(self).spec_phase() == TrackerPhase::Running ==> final(self).spec_events_processed()
                == (if old(self).spec_events_processed() < u64::MAX {
                (old(self).spec_events_processed() + 1) as u64
            } else {
                old(self).spec_events_processed()
            }) && final(self).spec_last_event_time() == Some(now),
            old(self).spec_phase() == TrackerPhase::Running ==> match event@ {
                EventView::Modified(ids) => final(self).spec_phase() == TrackerPhase::Running
                    && final(self).spec_errors() == 0 && (if ids.len() > 0 {
                    r matches TrackerAction::ResolveItems(v) && v@ == ids
                } else {
                    r is Nothing
                }),
                EventView::Added(_) => final(self).spec_phase() == TrackerPhase::Running
                    && final(self).spec_errors() == 0 && r is Nothing,
                EventView::Heartbeat { wal_size, .. } => final(self).spec_phase()
                    == TrackerPhase::Running && final(self).spec_errors() == 0 && (if wal_size
                    % DIAGNOSTICS_WAL_STEP == 0 {
                    r == (TrackerAction::ReportDiagnostics { wal_size })
                } else {
                    r is Nothing
                }),
                EventView::Failure(m) => if old(self).spec_errors() + 1
                    >= MAX_CONSECUTIVE_OBSERVER_ERRORS {
                    r is Drain && final(self).spec_phase() == TrackerPhase::Draining
                } else {
                    r matches TrackerAction::ReportError(e) && e@ == m && final(self).spec_phase()
                        == TrackerPhase::Running && final(self).spec_errors() == old(
                        self,
                    ).spec_errors() + 1
                },
            },
    {
        if self.phase != TrackerPhase::Running {
            return TrackerAction::Nothing;
        }
        self.events_processed = bump(self.events_processed);
        self.last_event_time = Some(now);
        match event {
            DatabaseEvent::MessagesModified(ids) => {
                self.consecutive_errors = 0;
                if ids.len() > 0 {
                    TrackerAction::ResolveItems(ids)
                } else {
                    TrackerAction::Nothing
                }
            },
            DatabaseEvent::MessagesAdded(_) => {
                self.consecutive_errors = 0;
                TrackerAction::Nothing
            },
            DatabaseEvent::TransactionComplete { wal_size, timestamp: _ } => {
                self.consecutive_errors = 0;
                if wal_size % DIAGNOSTICS_WAL_STEP == 0 {
                    TrackerAction::ReportDiagnostics { wal_size }
                } else {
                    TrackerAction::Nothing
                }
            },
            DatabaseEvent::MonitoringError(message) => {
                if self.consecutive_errors >= MAX_CONSECUTIVE_OBSERVER_ERRORS - 1 {
                    self.consecutive_errors = MAX_CONSECUTIVE_OBSERVER_ERRORS;
                    self.phase = TrackerPhase::Draining;
                    TrackerAction::Drain
                } else {
                    self.consecutive_errors = self.consecutive_errors + 1;
                    TrackerAction::ReportError(message)
                }
            },
        }
    }

    /// Classifies the resolved items of one batch at time `now`, stores their
    /// new baselines, and appends one journal entry per detected removal,
    /// with consecutive new journal ids. Returns the appended records, in
    /// order, for delivery. When the journal has fewer ids left than there
    /// are items, nothing is done and the batch fails.
    pub fn process_changes(&mut self, snapshots: &Vec<ItemSnapshot>, now: i64) -> (r: Result<
        Vec<DeletionRecord>,
        StateError,
    >)
        requires
            old(self).wf(),
        ensures
            final(self).wf(),
            final(self).spec_phase() == old(self).spec_phase(),
            final(self).spec_engine() == old(self).spec_engine(),
            final(self).spec_outputs() == old(self).spec_outputs(),
            r matches Ok(out) ==> final(self).spec_deletions_detected() == (if old(
                self,
            ).spec_deletions_detected() + out@.len() <= u64::MAX {
                (old(self).spec_deletions_detected() + out@.len()) as u64
            } else {
                u64::MAX
            }),
            r is Err ==> final(self).spec_deletions_detected() == old(self).spec_deletions_detected(),
            old(self).spec_store()@.next_id + snapshots@.len() > i64::MAX ==> r == Err::<
                Vec<DeletionRecord>,
                StateError,
            >(StateError::JournalExhausted) && final(self).spec_store()@ == old(self).spec_store()@,
            old(self).spec_store()@.next_id + snapshots@.len() <= i64::MAX ==> {
                let (m, recs) = analysis(
                    old(self).spec_engine().spec_detectors(),
                    old(self).spec_engine().spec_config(),
                    old(self).spec_store()@.fingerprints,
                    snapshot_views(snapshots@),
                    now,
                );
                &&& r matches Ok(out) && record_views(out@) == numbered(
                    recs,
                    old(self).spec_store()@.next_id,
                )
                &&& final(self).spec_store()@.fingerprints == m
                &&& final(self).spec_store()@.journal == old(self).spec_store()@.journal + numbered(
                    recs,
                    old(self).spec_store()@.next_id,
                )
                &&& final(self).spec_store()@.next_id == old(self).spec_store()@.next_id
                    + recs.len()
            },
    {
        let next = self.state_manager.next_deletion_id();
        if snapshots.len() as i128 > i64::MAX as i128 - next as i128 {
            return Err(StateError::JournalExhausted);
        }
        let ghost store0 = self.state_manager@;
        let records = self.detection_engine.analyze_message_changes(
            snapshots,
            &mut self.state_manager,
            now,
        );
        let ghost recs = record_views(records@);
        let ghost fps_after = self.state_manager@.fingerprints;
        proof {
            lemma_at_most_one_record_per_item(
                self.detection_engine.spec_detectors(),
                self.detection_engine.spec_config(),
                store0.fingerprints,
                snapshot_views(snapshots@),
                now,
            );
        }
        let mut out: Vec<DeletionRecord> = Vec::new();
        let mut k: usize = 0;
        proof {
            assert(record_views(out@) =~= numbered(recs.take(0), next));
            assert(store0.journal + numbered(recs.take(0), next) =~= store0.journal);
        }
        while k < records.len()
            invariant
                recs == record_views(records@),
                k <= records@.len(),
                next + records@.len() <= i64::MAX,
                self.state_manager.wf(),
                self.state_manager@.fingerprints == fps_after,
                self.state_manager@.journal == store0.journal + numbered(recs.take(k as int), next),
                self.state_manager@.next_id == next + k,
                record_views(out@) == numbered(recs.take(k as int), next),
                self.detection_engine == old(self).spec_engine(),
                self.output_manager == old(self).spec_outputs(),
                self.phase == old(self).spec_phase(),
                self.deletions_detected == old(self).spec_deletions_detected(),
                self.output_manager.spec_ready().len() == self.output_manager.spec_handlers().len(),
            decreases records@.len() - k,
        {
            let appended = self.state_manager.store_deletion(&records[k]);
            match appended {
                Ok(id) => {
                    let mut entry = records[k].snapshot();
                    entry.id = id;
                    let ghost out_before = record_views(out@);
                    out.push(entry);
                    proof {
                        assert(record_views(out@) =~= out_before.push(with_id(recs[k as int], id)));
                        assert(numbered(recs.take(k + 1), next) =~= numbered(
                            recs.take(k as int),
                            next,
                        ).push(with_id(recs[k as int], id)));
                        assert(store0.journal + numbered(recs.take(k + 1), next) =~= (store0.journal
                            + numbered(recs.take(k as int), next)).push(with_id(recs[k as int], id)));
                    }
                },
                Err(_) => {},
            }
            k = k + 1;
        }
        proof {
            assert(recs.take(k as int) =~= recs);
        }
        self.deletions_detected = if (self.deletions_detected as u128) + (out.len() as u128)
            <= u64::MAX as u128 {
            self.deletions_detected + out.len() as u64
        } else {
            u64::MAX
        };
        Ok(out)
    }

    /// Asks the tracker to stop: outside the draining and stopped phases it
    /// moves to draining. A batch in flight is completed first by the
    /// caller, since cancellation is only observed between ticks.
    pub fn request_shutdown(&mut self)
        requires
            old(self).wf(),
        ensures
            final(self).wf(),
            final(self).spec_store() == old(self).spec_store(),
            old(self).spec_phase() == TrackerPhase::Stopped ==> final(self).spec_phase()
                == TrackerPhase::Stopped,
            old(self).spec_phase() != TrackerPhase::Stopped ==> final(self).spec_phase()
                == TrackerPhase::Draining,
    {
        if self.phase != TrackerPhase::Stopped {
            self.phase = TrackerPhase::Draining;
        }
    }

    /// Reports that every sink was finalised: draining becomes stopped.
    pub fn finish_draining(&mut self)
        requires
            old(self).wf(),
        ensures
            final(self).wf(),
            final(self).spec_store() == old(self).spec_store(),
            old(self).spec_phase() == TrackerPhase::Draining ==> final(self).spec_phase()
                == TrackerPhase::Stopped,
            old(self).spec_phase() != TrackerPhase::Draining ==> final(self).spec_phase()
                == old(self).spec_phase(),
    {
        if self.phase == TrackerPhase::Draining {
            self.phase = TrackerPhase::Stopped;
        }
    }

    /// Counters of the run at time `now`.
    pub fn get_stats(&self, now: i64) -> (r: TrackerStats)
        ensures
            r.total_deletions_detected == self.spec_deletions_detected(),
            r.events_processed == self.spec_events_processed(),
            r.last_event_time == self.spec_last_event_time(),
            r.uptime_seconds == (if now >= self.spec_started_at() {
                (now - self.spec_started_at()) as u64
            } else {
                0
            }),
    {
        let uptime: u64 = if now >= self.started_at {
            (now as i128 - self.started_at as i128) as u64
        } else {
            0
        };
        TrackerStats {
            total_deletions_detected: self.deletions_detected,
            uptime_seconds: uptime,
            events_processed: self.events_processed,
            last_event_time: self.last_event_time,
        }
    }
}

} // verus!
