//! The logic of WaltzGPS, a map viewer for the Linux desktop: tile identity
//! and URL templating, configuration rules, the tile-cache policy, the
//! download queue with its memoized API keys, and the decisions behind every
//! widget of the user interface.
//!
//! Everything here computes on plain values. Files, processes, threads, the
//! clock and the toolkit stay with the caller, who performs what these
//! functions decide and hands back what happened.

pub mod app_state;
pub mod args;
pub mod cache;
pub mod config;
pub mod downloader;
pub mod geo;
pub mod key_runs;
pub mod keys;
pub mod paths;
pub mod persist;
pub mod text;
pub mod tile;
pub mod tile_map;
pub mod ui;
