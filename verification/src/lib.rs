//! The engine of `up`, a tool that runs a set of external maintenance
//! programs side by side and keeps their output for later.
//!
//! - [`programs`]: the descriptor of a program and the builder of its commands.
//! - [`timestamp`]: instants and the stamps that keep output files apart.
//! - [`commands`]: the runner, one step at a time, and what it records.
//! - [`progress`]: the counters and lines that a renderer shows.
//! - [`shared`]: the run of workers on several threads, each with a task of
//!   its own, and their progress behind a lock.
//! - [`dir_work`]: which files in the temporary directory are ours.
//! - [`text`]: small tools on texts.

pub mod commands;
pub mod dir_work;
pub mod programs;
pub mod progress;
pub mod shared;
pub mod text;
pub mod timestamp;
