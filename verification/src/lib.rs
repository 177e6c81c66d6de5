//! Work-time tracking core: the session state machine, the activity store,
//! consolidation of raw observations and the export orchestration.

pub mod confidence;
pub mod config;
pub mod consolidate;
pub mod daemon;
pub mod database;
pub mod export;
pub mod jira;
pub mod llm;
pub mod salesforce;
pub mod screenpipe;
pub mod state;
pub mod text;
pub mod time;
pub mod tracker;
