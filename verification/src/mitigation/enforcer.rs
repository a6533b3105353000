//! Firewall rules for blocked addresses. Running the firewall tool is left
//! to the program; the library decides the tool's arguments.

use vstd::prelude::*;
use vstd::string::StringExecFns;

verus! {

#[derive(Debug, Clone, Copy, PartialEq, Eq, Structural)]
pub enum EnforcementResult {
    Applied,
    Failed,
}

/// The name of the firewall rule that blocks `ip`.
pub open spec fn spec_rule_name(ip: Seq<char>) -> Seq<char> {
    "DDoS-Mitigation-"@ + ip
}

/// The `netsh` arguments that add the inbound block rule for `ip`.
pub open spec fn spec_block_args(ip: Seq<char>) -> Seq<Seq<char>> {
    seq![
        "advfirewall"@,
        "firewall"@,
        "add"@,
        "rule"@,
        "name="@ + spec_rule_name(ip),
        "dir=in"@,
        "action=block"@,
        "remoteip="@ + ip,
    ]
}

/// The `netsh` arguments that delete the block rule for `ip`.
pub open spec fn spec_unblock_args(ip: Seq<char>) -> Seq<Seq<char>> {
    seq!["advfirewall"@, "firewall"@, "delete"@, "rule"@, "name="@ + spec_rule_name(ip)]
}

/// `prefix` followed by `rest`.
fn joined(prefix: &str, rest: &str) -> (s: String)
    ensures
        s@ == prefix@ + rest@,
{
    let mut s = prefix.to_owned();
    s.append(rest);
    s
}

pub struct FirewallEnforcer;

impl FirewallEnforcer {
    pub fn new() -> Self {
        FirewallEnforcer
    }

    /// The name of the firewall rule that blocks `source_ip`.
    pub fn rule_name(&self, source_ip: &str) -> (name: String)
        ensures
            name@ == spec_rule_name(source_ip@),
    {
        joined("DDoS-Mitigation-", source_ip)
    }

    /// The arguments of the `netsh` call that blocks inbound traffic from
    /// `source_ip`.
    pub fn block_rule_args(&self, source_ip: &str) -> (args: Vec<String>)
        ensures
            args@.map_values(|a: String| a@) == spec_block_args(source_ip@),
    {
        let name = self.rule_name(source_ip);
        let mut args: Vec<String> = Vec::new();
        args.push("advfirewall".to_owned());
        args.push("firewall".to_owned());
        args.push("add".to_owned());
        args.push("rule".to_owned());
        args.push(joined("name=", name.as_str()));
        args.push("dir=in".to_owned());
        args.push("action=block".to_owned());
        args.push(joined("remoteip=", source_ip));
        assert(args@.map_values(|a: String| a@) =~= spec_block_args(source_ip@));
        args
    }

    /// The arguments of the `netsh` call that deletes the block rule for
    /// `source_ip`.
    pub fn unblock_rule_args(&self, source_ip: &str) -> (args: Vec<String>)
        ensures
            args@.map_values(|a: String| a@) == spec_unblock_args(source_ip@),
    {
        let name = self.rule_name(source_ip);
        let mut args: Vec<String> = Vec::new();
        args.push("advfirewall".to_owned());
        args.push("firewall".to_owned());
        args.push("delete".to_owned());
        args.push("rule".to_owned());
        args.push(joined("name=", name.as_str()));
        assert(args@.map_values(|a: String| a@) =~= spec_unblock_args(source_ip@));
        args
    }
}

} // verus!
