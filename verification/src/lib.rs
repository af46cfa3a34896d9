//! Subtitle discovery, scan history and download bookkeeping for the Rustitles downloader.

pub mod commands;
pub mod config;
pub mod data;
pub mod downloads;
pub mod helpers;
pub mod installer;
pub mod languages;
pub mod logging;
pub mod paths;
pub mod redact;
pub mod scan_history;
pub mod settings;
pub mod sorted;
pub mod startup;
pub mod subtitles;
pub mod text;
pub mod versions;
