//! The change observer: it samples the size of the monitored store's
//! mutation log on every tick and turns a change into a bounded batch of
//! changed item ids.
//!
//! Reading the log's size and querying the store are done by the caller,
//! which hands the outcome to [`WalMonitor::check_for_changes`].

use vstd::prelude::*;
use crate::config::DatabaseConfig;
use crate::clock::unix_now;

verus! {

/// Events emitted by the observer.
#[derive(Debug, Clone)]
pub enum DatabaseEvent {
    /// New items were seen.
    MessagesAdded(Vec<i32>),
    /// Items changed, possibly removed.
    MessagesModified(Vec<i32>),
    /// The mutation log grew or shrank; a heartbeat for diagnostics.
    TransactionComplete { wal_size: u64, timestamp: i64 },
    /// The store could not be read on this tick.
    MonitoringError(String),
}

/// What the caller found on one tick.
#[derive(Debug)]
pub enum WalObservation {
    /// The mutation log does not exist right now.
    Missing,
    /// Reading the mutation log's size failed.
    Unreadable(String),
    /// The log's size, and the outcome of asking the store which items
    /// changed since the last check; the outcome is only consulted when the
    /// size differs from the last sample.
    Sampled { size: u64, changed: Result<Vec<i32>, String> },
}

/// Model of the events of one tick.
pub enum EventView {
    Added(Seq<i32>),
    Modified(Seq<i32>),
    Heartbeat { wal_size: u64, timestamp: i64 },
    Failure(Seq<char>),
}

impl View for DatabaseEvent {
    type V = EventView;

    open spec fn view(&self) -> EventView {
        match self {
            DatabaseEvent::MessagesAdded(ids) => EventView::Added(ids@),
            DatabaseEvent::MessagesModified(ids) => EventView::Modified(ids@),
            DatabaseEvent::TransactionComplete { wal_size, timestamp } => EventView::Heartbeat {
                wal_size: *wal_size,
                timestamp: *timestamp,
            },
            DatabaseEvent::MonitoringError(m) => EventView::Failure(m@),
        }
    }
}

/// Models of a list of events.
pub open spec fn event_views(s: Seq<DatabaseEvent>) -> Seq<EventView> {
    s.map_values(|e: DatabaseEvent| e@)
}

/// The events of a tick on which the log changed from its last sample and
/// the store reported `ids` changed: the first `limit` of them as one
/// modification, when there are any, then a heartbeat.
pub open spec fn change_events(ids: Seq<i32>, limit: usize, size: u64, now: i64) -> Seq<EventView> {
    let batch = if ids.len() > limit {
        ids.take(limit as int)
    } else {
        ids
    };
    (if batch.len() > 0 {
        seq![EventView::Modified(batch)]
    } else {
        Seq::empty()
    }) + seq![EventView::Heartbeat { wal_size: size, timestamp: now }]
}

/// Samples the monitored store's mutation log.
pub struct WalMonitor {
    config: DatabaseConfig,
    last_wal_size: u64,
    last_check: i64,
}

/// The path of the mutation log that belongs to a database path: the path
/// with its extension replaced by, or extended with, `ext`.
pub uninterp spec fn path_with_extension_of(path: Seq<char>, ext: Seq<char>) -> Seq<char>;

/// Relies on `std::path::Path::with_extension`: the path with its last
/// extension replaced by `ext`, or with `ext` added where it has none.
#[verifier::external_body]
fn path_with_extension(path: &str, ext: &str) -> (r: String)
    ensures
        r@ == path_with_extension_of(path@, ext@),
{
    std::path::Path::new(path).with_extension(ext).to_string_lossy().into_owned()
}

impl WalMonitor {
    /// The configuration the monitor was made with.
    pub closed spec fn spec_config(&self) -> DatabaseConfig {
        self.config
    }

    /// Size of the log at the last sample that was acted on.
    pub closed spec fn spec_last_size(&self) -> u64 {
        self.last_wal_size
    }

    /// Time of the last completed check, in seconds since the Unix epoch.
    pub closed spec fn spec_last_check(&self) -> i64 {
        self.last_check
    }

    /// A monitor that has seen an empty log, last checked now.
    pub fn new(config: DatabaseConfig) -> (r: WalMonitor)
        ensures
            r.spec_config() == config,
            r.spec_last_size() == 0,
    {
        WalMonitor { config, last_wal_size: 0, last_check: unix_now() }
    }

    /// A monitor that has seen an empty log, last checked at `now`.
    pub fn new_at(config: DatabaseConfig, now: i64) -> (r: WalMonitor)
        ensures
            r.spec_config() == config,
            r.spec_last_size() == 0,
            r.spec_last_check() == now,
    {
        WalMonitor { config, last_wal_size: 0, last_check: now }
    }

    /// Path of the mutation log: the database path with extension `db-wal`.
    pub fn get_wal_path(&self) -> (r: String)
        ensures
            r@ == path_with_extension_of(self.spec_config().imessage_db_path@, "db-wal"@),
    {
        path_with_extension(self.config.imessage_db_path.as_str(), "db-wal")
    }

    /// Since when, and at most how many, changed items the store should be
    /// asked for on the next tick.
    pub fn query_window(&self) -> (r: (i64, usize))
        ensures
            r == (self.spec_last_check(), self.spec_config().max_batch_size),
    {
        (self.last_check, self.config.max_batch_size)
    }

    /// Whether a log of `size` bytes differs from the last sample, so that
    /// the store has to be asked which items changed.
    pub fn size_changed(&self, size: u64) -> (r: bool)
        ensures
            r == (size != self.spec_last_size()),
    {
        size != self.last_wal_size
    }

    /// Acts on one tick's observation at time `now`.
    ///
    /// A missing log skips the tick. An unreadable log, or a failed query
    /// after a change, is an error; the last sample is then kept. A log of
    /// unchanged size gives no events. A changed log gives the changed ids,
    /// at most the configured batch size of them, as one modification event
    /// (none when the store reports none), followed by a heartbeat, and
    /// becomes the last sample. Every tick that is not skipped or failed
    /// records `now` as the time of the last check.
    pub fn check_for_changes(&mut self, observation: WalObservation, now: i64) -> (r: Result<
        Vec<DatabaseEvent>,
        String,
    >)
        ensures
            final(self).spec_config() == old(self).spec_config(),
            match observation {
                WalObservation::Missing => r matches Ok(evs) && evs@.len() == 0 && *final(self)
                    == *old(self),
                WalObservation::Unreadable(e) => r matches Err(m) && m@ == e@ && *final(self)
                    == *old(self),
                WalObservation::Sampled { size, changed } => if size == old(self).spec_last_size() {
                    r matches Ok(evs) && evs@.len() == 0 && final(self).spec_last_size() == size
                        && final(self).spec_last_check() == now
                } else {
                    match changed {
                        Err(e) => r matches Err(m) && m@ == e@ && *final(self) == *old(self),
                        Ok(ids) => r matches Ok(evs) && event_views(evs@) == change_events(
                            ids@,
                            old(self).spec_config().max_batch_size,
                            size,
                            now,
                        ) && final(self).spec_last_size() == size && final(self).spec_last_check()
                            == now,
                    }
                },
            },
    {
        match observation {
            WalObservation::Missing => Ok(Vec::new()),
            WalObservation::Unreadable(e) => Err(e),
            WalObservation::Sampled { size, changed } => {
                if size == self.last_wal_size {
                    self.last_check = now;
                    return Ok(Vec::new());
                }
                match changed {
                    Err(e) => Err(e),
                    Ok(ids) => {
                        let mut events: Vec<DatabaseEvent> = Vec::new();
                        let limit = self.config.max_batch_size;
                        let mut batch = ids;
                        if batch.len() > limit {
                            batch.truncate(limit);
                        }
                        let ghost batch_view = batch@;
                        if batch.len() > 0 {
                            events.push(DatabaseEvent::MessagesModified(batch));
                        }
                        events.push(DatabaseEvent::TransactionComplete { wal_size: size, timestamp: now });
                        proof {
                            let expected = change_events(
                                ids@,
                                old(self).spec_config().max_batch_size,
                                size,
                                now,
                            );
                            if batch_view.len() > 0 {
                                assert(event_views(events@)[0] == EventView::Modified(batch_view));
                            }
                            assert(event_views(events@) =~= expected);
                        }
                        self.last_wal_size = size;
                        self.last_check = now;
                        Ok(events)
                    },
                }
            },
        }
    }

    /// One tick of the observer stream: the events of
    /// [`WalMonitor::check_for_changes`], or a single monitoring error event
    /// in its place; the observer never stops on an error.
    pub fn poll(&mut self, observation: WalObservation, now: i64) -> (r: Vec<DatabaseEvent>)
        ensures
            final(self).spec_config() == old(self).spec_config(),
            match observation {
                WalObservation::Missing => r@.len() == 0 && *final(self) == *old(self),
                WalObservation::Unreadable(e) => r@.len() == 1 && r@[0]@ == EventView::Failure(e@)
                    && *final(self) == *old(self),
                WalObservation::Sampled { size, changed } => if size == old(self).spec_last_size() {
                    r@.len() == 0 && final(self).spec_last_check() == now
                } else {
                    match changed {
                        Err(e) => r@.len() == 1 && r@[0]@ == EventView::Failure(e@) && *final(self)
                            == *old(self),
                        Ok(ids) => event_views(r@) == change_events(
                            ids@,
                            old(self).spec_config().max_batch_size,
                            size,
                            now,
                        ) && final(self).spec_last_size() == size,
                    }
                },
            },
    {
        match self.check_for_changes(observation, now) {
            Ok(events) => events,
            Err(e) => {
                let mut events: Vec<DatabaseEvent> = Vec::new();
                events.push(DatabaseEvent::MonitoringError(e));
                events
            },
        }
    }
}

/// Drives the observer.
pub struct EventProcessor {
    wal_monitor: WalMonitor,
}

impl EventProcessor {
    /// The observer being driven.
    pub closed spec fn spec_monitor(&self) -> WalMonitor {
        self.wal_monitor
    }

    /// A processor around a fresh monitor of `config`.
    pub fn new(config: DatabaseConfig) -> (r: EventProcessor)
        ensures
            r.spec_monitor().spec_config() == config,
            r.spec_monitor().spec_last_size() == 0,
    {
        EventProcessor { wal_monitor: WalMonitor::new(config) }
    }

    /// The observer being driven.
    pub fn monitor(&self) -> (r: &WalMonitor)
        ensures
            *r == self.spec_monitor(),
    {
        &self.wal_monitor
    }

    /// One tick: see [`WalMonitor::poll`].
    pub fn poll(&mut self, observation: WalObservation, now: i64) -> (r: Vec<DatabaseEvent>)
        ensures
            final(self).spec_monitor().spec_config() == old(self).spec_monitor().spec_config(),
            match observation {
                WalObservation::Missing => r@.len() == 0,
                WalObservation::Unreadable(e) => r@.len() == 1 && r@[0]@ == EventView::Failure(e@),
                WalObservation::Sampled { size, changed } => if size
                    == old(self).spec_monitor().spec_last_size() {
                    r@.len() == 0
                } else {
                    match changed {
                        Err(e) => r@.len() == 1 && r@[0]@ == EventView::Failure(e@),
                        Ok(ids) => event_views(r@) == change_events(
                            ids@,
                            old(self).spec_monitor().spec_config().max_batch_size,
                            size,
                            now,
                        ),
                    }
                },
            },
    {
        self.wal_monitor.poll(observation, now)
    }
}

} // verus!
