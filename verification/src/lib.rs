//! A polling job runner for watched directories.
//!
//! A [`job::Job`] owns one watched directory, the commands to run when
//! something under it changes, and the bookkeeping that both need: the
//! modification time last seen for every file, and the process that is
//! currently running for every server command.
//!
//! The crate holds the decisions only. Walking the directory, running
//! shell commands and sleeping are left to a runtime, which performs one
//! [`machine::Action`] at a time and reports what came of it as an
//! [`machine::Event`].
//!
//! - [`config`]: a job as the configuration describes it.
//! - [`entry`]: what a walk reports of one file.
//! - [`detect`]: which files are watched, and what counts as a change.
//! - [`scans`]: what holds of one scan, and of two that follow one another.
//! - [`report`]: the lines of the log.
//! - [`job`]: the job and its state.
//! - [`machine`]: actions, events, and the answer of a job to each event.
//! - [`cycle`]: what holds of runs of events.
//! - [`supervise`]: what holds of the processes of the servers.
pub mod config;
pub mod cycle;
pub mod detect;
pub mod entry;
pub mod job;
pub mod machine;
pub mod report;
pub mod scans;
pub mod supervise;
