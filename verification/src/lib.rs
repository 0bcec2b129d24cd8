//! Artifact synchronization for a multi-configuration native build.
//!
//! After the compiler has produced one output directory per build
//! configuration, runtime dependencies have to be placed next to the
//! executables and loose resource trees have to be packed into archives.
//! This crate decides what belongs where and whether it can be placed. It
//! performs no input or output itself:
//!
//! 1. [`probe`] lists the paths that a run reads, and the caller records
//!    those that exist in a [`disk::DiskSnapshot`];
//! 2. [`plan`] turns the snapshot into a list of [`outcome::Step`]s, one for
//!    each pair of an artifact and a configuration;
//! 3. a [`runner::Runner`] names the operations of the plan one by one, the
//!    caller performs each and reports whether it succeeded;
//! 4. the [`report::RunReport`] holds the outcome of every pair and the
//!    exit status of the run.
//!
//! A configuration that has not been built is skipped. A missing source, a
//! failed write and a failed tool are fatal and end the run at once.

pub mod catalog;
pub mod descriptor;
pub mod disk;
pub mod executor;
pub mod laws;
pub mod outcome;
pub mod paths;
pub mod plan;
pub mod probe;
pub mod registry;
pub mod report;
pub mod runner;
