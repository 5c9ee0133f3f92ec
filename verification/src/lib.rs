//! Keeps uncompressed blobs in a local directory and hands out one shared cache entry per blob.
//!
//! The library decides; its callers touch the file system and the entries' files. A caller asks
//! for the next piece of outside work, performs it, and hands the outcome back.

pub mod config;
pub mod effects;
pub mod error;
pub mod handout;
pub mod laws;
pub mod manager;
pub mod metrics;
pub mod model;
pub mod runtime;
pub mod setup;
pub mod table;
pub mod work_dir;
