//! Planning of audio operations for an external media engine.
//!
//! The library decides what the engine is asked to do: which encoder settings
//! a format calls for, which arguments each invocation carries, which bit
//! rate meets a size or percentage target, and in which order the passes of
//! a trim or a merge run. It performs no input or output itself.

pub mod boost;
pub mod bundle;
pub mod compress;
pub mod convert;
pub mod engine;
pub mod error;
pub mod job;
pub mod merge;
pub mod metadata;
pub mod name;
pub mod plan;
pub mod probe;
pub mod rate;
pub mod recipe;
pub mod service;
pub mod text;
pub mod trim;
