//! Runs a named set of shell commands concurrently and renders a live
//! pass/fail status for each on a terminal, aligned into columns.
//!
//! This crate holds the verified logic: layout of the status screen, the
//! classification of each command's outcome, command-line tokenization, and
//! the configuration transformations. The surrounding binary performs the
//! process spawning and the terminal writes that these functions plan.

pub mod command_runner;
pub mod config;
pub mod dirs;
pub mod params;
pub mod text;

pub use params::UpCli;
