//! Multi-remote mirroring rules for a git wrapper: reading the remote
//! configuration, choosing the git invocations for a command line, and
//! deciding after every child process whether to go on or to exit.
//!
//! The library starts no process and reads no file. A caller reads the
//! configuration file, hands its text and the command line to
//! [`session::launch`], runs the commands that the session hands out, and
//! reports what became of each; the session says when to stop and with which
//! status.
//!
//! - [`repos`]: the mapping from remote name to URL.
//! - [`document`]: the way into a document parsed by the `toml` crate.
//! - [`config`]: the configuration, read from a document and validated.
//! - [`command`]: from the command line to the list of git invocations.
//! - [`exit`]: exit statuses and error lines.
//! - [`session`]: the machine that steps through the invocations.
//! - [`run`]: what a whole run does, proved of the machine.

pub mod command;
pub mod config;
pub mod document;
pub mod exit;
pub mod repos;
pub mod run;
pub mod session;
