//! The policy the agent runs under. It is read once, elsewhere, and only
//! read here.

use vstd::prelude::*;

verus! {

/// What to do after a change: write the firewall address sets to a file,
/// run a shell command, or both.
#[derive(Clone, Debug, PartialEq)]
pub struct Hook {
    pub shell: Option<String>,
    pub nft_sets_outfile: Option<String>,
}

/// The policy: where to report to, which families and kinds of address to
/// report, which interfaces to look at, and what to do after a change.
#[derive(Clone, Debug, PartialEq)]
pub struct Config {
    pub debug: Option<bool>,
    /// The URL of the dynamic-DNS service, to which the query is added.
    pub ddns_url: String,
    pub hostname: String,
    pub enable_ipv6: bool,
    pub enable_ipv4: bool,
    /// Whether a private IPv4 address may be reported.
    pub report_ipv4_private: bool,
    /// Whether a unique-local IPv6 address may be reported.
    pub report_ipv6_ula: bool,
    /// The interface patterns, in the order in which they are tried.
    pub interfaces: Vec<String>,
    pub hooks: Option<Vec<Hook>>,
}

/// Private IPv4 addresses are not reported unless the policy says so.
pub fn default_report_ipv4_private() -> (accept: bool)
    ensures
        !accept,
{
    false
}

/// Unique-local IPv6 addresses are not reported unless the policy says so.
pub fn default_report_ipv6_ula() -> (accept: bool)
    ensures
        !accept,
{
    false
}

/// Whether the policy asks for debug logging, whatever the command line
/// says.
pub fn debug_logging(conf: &Config) -> (debug: bool)
    ensures
        debug == (conf.debug == Some(true)),
{
    match conf.debug {
        Some(flag) => flag,
        None => false,
    }
}

/// The texts of a list of strings.
pub open spec fn texts(v: Seq<String>) -> Seq<Seq<char>> {
    Seq::new(v.len(), |i: int| v[i]@)
}

} // verus!
