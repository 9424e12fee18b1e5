//! Orchestration logic for batch transcoding of container media files.
//!
//! The crate decides; it never touches the outside world. Callers resolve
//! paths, list directories, spawn processes and delete files, and hand the
//! plain outcomes to the state machines defined here.

pub mod aftermath;
pub mod artifacts;
pub mod batch;
pub mod command;
pub mod diagnostic;
pub mod discover;
pub mod engine;
pub mod path;
pub mod policy;
pub mod resolve;
pub mod runner;
pub mod text;
pub mod views;
pub mod world;
