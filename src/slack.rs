//! Slack connector: settings and message formatting.

pub mod config;
pub mod markdown;
