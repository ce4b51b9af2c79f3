//! Compiler for per-device controller-mapping descriptors.
//!
//! Each descriptor file names a physical input device and declares how its
//! raw button/axis codes remap to a fixed set of logical input events. This
//! crate resolves the human-readable event names to stable byte codes,
//! orders the remap entries deterministically, serializes each device to a
//! terse line-oriented record, and aggregates all records into one database
//! string with exact separator and truncation rules.

pub mod errors;
pub mod strutil;
pub mod symbol;
pub mod numtext;
pub mod model;
pub mod ext;
pub mod sort;
pub mod encode;
pub mod parse;
pub mod compile;
pub mod laws;
