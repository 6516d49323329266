//! Project configuration and platform helpers for building Apple targets.
//!
//! - [`app`]: the `app` section of a project's configuration, checked against the
//!   naming, domain and layout rules;
//! - [`name`], [`domain`]: those rules;
//! - [`paths`], [`seqs`], [`text`]: Unix paths as text, splitting and joining,
//!   character classes;
//! - [`macos`]: the commands that a macOS host runs for a project;
//! - [`cli`]: the `cargo apple` subcommands, the steps each takes, and their errors;
//! - [`report`]: error reports.

pub mod report;
pub mod seqs;
pub mod paths;
pub mod text;
pub mod domain;
pub mod name;
pub mod app;
pub mod macos;
pub mod cli;
