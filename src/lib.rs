//! Detection of silent deletions and edits in a message store.
//!
//! The library keeps a fingerprint of every observed item, compares each new
//! snapshot against the previous one through an ordered list of classifiers,
//! and journals every detected removal in an append-only deletion journal.
//! Reading the monitored store, persisting state and delivering records to
//! sinks are left to the caller, which hands the library plain values.

pub mod config;
pub mod fingerprint;
pub mod state_manager;
pub mod detection_engine;
pub mod clock;
pub mod event_system;
pub mod output_plugins;
pub mod tracker;
pub mod database;
pub mod message_tracker;
pub mod json;
