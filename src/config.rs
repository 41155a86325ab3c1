//! Configuration of the tracker: what is monitored, how long state is kept,
//! which classifications are enabled and where records are delivered.

use vstd::prelude::*;
use vstd::string::*;

verus! {

/// Kinds of removal that the tracker can classify.
#[derive(Debug, Clone, Copy, PartialEq, Eq, Structural)]
pub enum DeletionType {
    FullMessage,
    PartialEdit,
    AttachmentOnly,
    MediaContent,
}

/// Rendering style of the terminal sink.
#[derive(Debug, Clone, Copy, PartialEq, Eq, Structural)]
pub enum TerminalFormat {
    Plain,
    Colored,
    Json,
}

/// Settings of the monitored message store.
#[derive(Debug, Clone)]
pub struct DatabaseConfig {
    /// Path of the monitored message database.
    pub imessage_db_path: String,
    /// Interval between two samples of the mutation log, in milliseconds.
    pub wal_check_interval_ms: u64,
    /// Largest number of changed items resolved in one tick.
    pub max_batch_size: usize,
}

/// Settings of the tracker's own persistent state.
#[derive(Debug, Clone)]
pub struct StateConfig {
    /// Path of the tracker's state database.
    pub state_db_path: String,
    /// Retention horizon of fingerprints and journal entries, in days.
    pub retention_days: u32,
    /// Whether persisted state is compressed.
    pub enable_compression: bool,
}

/// Settings of the classifiers.
#[derive(Debug, Clone)]
pub struct DetectionConfig {
    /// Classifications that are enabled; a classifier none of whose types
    /// is listed here is not run at all.
    pub deletion_types: Vec<DeletionType>,
    /// Whether a changed content hash of a present item is reported as a
    /// partial edit.
    pub track_edits_as_deletions: bool,
    /// Whether a changed content hash of a present item counts as a full
    /// replacement, reported by the full-message classifier.
    pub content_change_is_full_deletion: bool,
    /// Whether a partial edit report carries the previously retained content.
    pub recover_edited_content: bool,
    /// Conversation filters.
    pub conversation_filters: Vec<String>,
}

/// A delivery sink and its settings.
#[derive(Debug, Clone)]
pub enum OutputPlugin {
    Json { path: String, pretty: bool },
    Sqlite { path: String, table_name: String },
    Webhook { url: String, auth_token: Option<String> },
    Terminal { format: TerminalFormat },
}

/// One configured sink.
#[derive(Debug, Clone)]
pub struct OutputConfig {
    /// Which sink, with its settings.
    pub plugin: OutputPlugin,
    /// Whether the sink takes part in a run.
    pub enabled: bool,
}

/// The whole configuration of a tracker.
#[derive(Debug, Clone)]
pub struct TrackerConfig {
    pub database: DatabaseConfig,
    pub state: StateConfig,
    pub detection: DetectionConfig,
    /// Sinks, in delivery order.
    pub outputs: Vec<OutputConfig>,
}

/// The classifications enabled when nothing else is configured.
pub open spec fn default_deletion_types() -> Seq<DeletionType> {
    seq![DeletionType::FullMessage, DeletionType::AttachmentOnly]
}

impl TrackerConfig {
    /// The configuration used when none is given: a one second sampling
    /// interval, batches of at most 100 items, a 30 day retention horizon,
    /// full-message and attachment-only classification, no edit tracking, and
    /// a colored terminal sink followed by a pretty JSON file sink.
    pub fn default_config() -> (r: TrackerConfig)
        ensures
            r.database.imessage_db_path@ == "~/Library/Messages/chat.db"@,
            r.database.wal_check_interval_ms == 1000,
            r.database.max_batch_size == 100,
            r.state.state_db_path@ == "./tracker_state.db"@,
            r.state.retention_days == 30,
            r.state.enable_compression,
            r.detection.deletion_types@ == default_deletion_types(),
            !r.detection.track_edits_as_deletions,
            !r.detection.content_change_is_full_deletion,
            !r.detection.recover_edited_content,
            r.detection.conversation_filters@.len() == 0,
            r.outputs@.len() == 2,
            r.outputs@[0].enabled,
            r.outputs@[0].plugin == (OutputPlugin::Terminal { format: TerminalFormat::Colored }),
            r.outputs@[1].enabled,
            r.outputs@[1].plugin matches OutputPlugin::Json { path, pretty }
                && path@ == "./deletions.json"@ && pretty,
    {
        let mut deletion_types: Vec<DeletionType> = Vec::new();
        deletion_types.push(DeletionType::FullMessage);
        deletion_types.push(DeletionType::AttachmentOnly);
        let mut outputs: Vec<OutputConfig> = Vec::new();
        outputs.push(
            OutputConfig {
                plugin: OutputPlugin::Terminal { format: TerminalFormat::Colored },
                enabled: true,
            },
        );
        outputs.push(
            OutputConfig {
                plugin: OutputPlugin::Json {
                    path: String::from_str("./deletions.json"),
                    pretty: true,
                },
                enabled: true,
            },
        );
        let r = TrackerConfig {
            database: DatabaseConfig {
                imessage_db_path: String::from_str("~/Library/Messages/chat.db"),
                wal_check_interval_ms: 1000,
                max_batch_size: 100,
            },
            state: StateConfig {
                state_db_path: String::from_str("./tracker_state.db"),
                retention_days: 30,
                enable_compression: true,
            },
            detection: DetectionConfig {
                deletion_types,
                track_edits_as_deletions: false,
                content_change_is_full_deletion: false,
                recover_edited_content: false,
                conversation_filters: Vec::new(),
            },
            outputs,
        };
        assert(r.detection.deletion_types@ =~= default_deletion_types());
        r
    }
}

impl Default for TrackerConfig {
    fn default() -> (r: TrackerConfig)
        ensures
            r.database.max_batch_size == 100,
            r.state.retention_days == 30,
            r.detection.deletion_types@ == default_deletion_types(),
            r.outputs@.len() == 2,
    {
        TrackerConfig::default_config()
    }
}

} // verus!
