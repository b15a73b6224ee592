//! Turns a combat log that is being written into encounter, death and end
//! events, and drives screen recordings with chapter markers from them.
//!
//! - [`scan`]: finding markers and line boundaries in bytes;
//! - [`parser`]: the incremental event parser;
//! - [`follower`]: which log file to tail and what to do with its new bytes;
//! - [`recorder`]: the session manager, with [`chapters`] for the chapter file.
pub mod chapters;
pub mod config;
pub mod events;
pub mod flags;
pub mod follower;
pub mod parser;
pub mod recorder;
pub mod scan;
