//! Verified core of an agent monitor: the daemon's registry and activity
//! log, the event-ingestion rules that decide notifications, the text the
//! notifications and the terminal UI show, and the UI's navigation state.

pub mod text;
pub mod proto;
pub mod clock;
pub mod groups;
pub mod registry;
pub mod activity_log;
pub mod paths;
pub mod notify;
pub mod ingest;
pub mod order;
pub mod seqs;
pub mod app;
pub mod input;
pub mod labels;
pub mod screen;
pub mod host;
pub mod hook;
pub mod liveness;
pub mod launchd;
pub mod daemon;
pub mod client;
pub mod settings;
