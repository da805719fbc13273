//! A verified webhook dispatcher core.
//!
//! The library receives a repository event (raw body bytes, two header
//! strings and the fields parsed from the JSON body), authenticates it
//! against the secrets of a configured rule set, decides which rules match,
//! and plans the ordered list of shell commands that a matched rule set
//! triggers. Executing the commands, serving HTTP and loading the
//! configuration file are left to a thin unverified shell around this crate.

pub mod config;
pub mod github;
pub mod runner;
pub mod signature;
