//! Duplicate detection and format-converting storage reduction.
//!
//! The library holds the decisions: which files can be duplicates, how they
//! are grouped, which converter handles a file and whether a conversion paid
//! off. Walking directories, reading files and running encoders is left to
//! the caller, who hands the results in as plain values.

pub mod text;
pub mod path;
pub mod scanner;
pub mod duplicates;
pub mod filters;
pub mod api;
pub mod compress_plugins;
pub mod plugins;
pub mod config;
pub mod hash;
pub mod time;
pub mod progress;
pub mod task;
pub mod error;
pub mod compress;
pub mod image_sim;
pub mod video_sim;
pub mod models;
pub mod file_ops;
pub mod compressibility;
