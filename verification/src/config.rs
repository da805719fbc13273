//! The configured rule set.
//!
//! One `ConfigSite` is one routing rule: which repository it applies to,
//! the shared secret used to authenticate deliveries, optional ref and
//! event-type filters, and the ordered command chain to run on a match.

use vstd::prelude::*;

verus! {

/// The whole configuration document: the listening address and the rules.
pub struct Config {
    pub server: ConfigServer,
    pub github: Vec<ConfigSite>,
}

/// Where the HTTP server listens.
pub struct ConfigServer {
    pub host: String,
    pub port: u16,
}

/// One routing rule.
///
/// An empty `name` matches every repository. An empty `password` disables
/// signature verification for this rule: any caller can then trigger its
/// commands, so an operator should set it only on purpose. An absent
/// `_ref` or `event` filter matches every ref or event type.
pub struct ConfigSite {
    pub name: String,
    pub password: String,
    pub _ref: Option<String>,
    pub event: Option<String>,
    pub cmds: Vec<String>,
}

} // verus!
