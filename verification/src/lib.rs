//! Highlights: a keyword highlighting bot for Discord.
//!
//! This crate holds the bot's decision logic: matching keywords against
//! message text, planning which backups to keep, validating command input,
//! and converting between the bot's records and their stored form.

pub mod args;
pub mod backup;
pub mod commands;
pub mod dashboard;
pub mod db;
pub mod ids;
pub mod error;
pub mod highlighting;
pub mod monitoring;
pub mod pattern;
pub mod replies;
pub mod reports;
pub mod responses;
pub mod settings;
pub mod reporting;
pub mod strings;
pub mod text;
pub mod keyword_match;
pub mod listing;
pub mod notifications;
