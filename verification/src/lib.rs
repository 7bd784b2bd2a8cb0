//! Verified core of a media streaming service.
//!
//! The service streams media files by their base64url encoded path with HTTP
//! byte ranges, accepts uploads and keeps counters of what it did. Everything
//! that is decided or computed on the way stands here; sockets, files and
//! clocks are driven from outside through plain values.

pub mod text;
pub mod http;
pub mod range;
pub mod path;
pub mod media;
pub mod clock;
pub mod config;
pub mod stats;
pub mod snapshot;
pub mod encoding;
pub mod names;
pub mod stream;
pub mod chunk;
pub mod prefetch;
pub mod files;
pub mod upload;
pub mod about;
pub mod operations;
pub mod requests;
