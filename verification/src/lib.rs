//! Provider decorators that keep model calls inside rate and concurrency
//! limits, and the bundle of prompts that the calls are made with.
//!
//! Everything here is a decision or a computation on plain values: the clock,
//! the network and the file system are on the caller's side, which reports what
//! happened and carries out what it is told to do next.

pub mod ai;
pub mod install_laws;
pub mod path_laws;
pub mod paths;
pub mod prompt_bundle;
