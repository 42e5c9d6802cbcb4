//! Verified core of a media-download manager.
//!
//! The library models a single-job download lifecycle as a state machine,
//! parses the line-oriented output of an external downloader into structured
//! progress and error events, and manages a bounded-concurrency download
//! queue. All logic is pure and verified; process spawning, file I/O and the
//! GUI shell live outside the library.

pub mod args;
pub mod config;
pub mod debuginfo;
pub mod error;
pub mod executables;
pub mod folder;
pub mod history;
pub mod logging;
pub mod manager;
pub mod outcome;
pub mod parser;
pub mod paths;
pub mod prefs;
pub mod progress;
pub mod queue;
pub mod state;
pub mod subtitles;
pub mod text;
pub mod update;
