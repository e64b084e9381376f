//! Automatic copying of files between folders, driven by a declarative
//! configuration: a watched source directory and, per file extension, a
//! target directory and optional ignored folders.

pub mod asset;
pub mod blender;
pub mod config;
pub mod pathname;
pub mod stats;
pub mod text;
pub mod texture;
pub mod watch;

pub use config::ConfigBuilder;
