//! A result cache in front of a process runner: content-addressed directory
//! trees, action-result assembly, cache-hit validation and the race between a
//! cache lookup and a local run.
pub mod model;
pub mod tree;
pub mod action_result;
pub mod cache;
pub mod runner;
pub mod laws;
