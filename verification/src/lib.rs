//! Runs configured shell commands when the current working directory name or
//! the current git branch matches a rule's target.
//!
//! The crate holds the verified core: deciding which rules match a snapshot of
//! the environment, laying out the ordered execution plan for each rule's
//! command list (blocking or background), and formatting every line the tool
//! prints, including the colour-tagged command output. Reading the
//! configuration file, spawning processes and draining their streams are left
//! to an unverified front end that executes the plan step by step.

pub mod output;
pub mod cmd;
pub mod config;
pub mod envvars;
pub mod text;
