//! A periodic directory-backup engine: change detection by modification
//! time, cycle scheduling, and archive building in two formats.

pub mod answer;
pub mod archive;
pub mod config;
pub mod engine;
pub mod naming;
pub mod snapshot;
pub mod tar_codec;
pub mod tree;
pub mod zip_codec;
