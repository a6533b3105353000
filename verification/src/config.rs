//! Run-time settings, with their defaults.

use vstd::prelude::*;
use crate::text::{
    parse_u64, parse_bool, split_trimmed_nonempty, spec_parse_u64, spec_parse_bool,
    spec_split_commas, spec_trimmed_nonempty,
};

verus! {

/// Pattern of the binary64 number 0.75: the default score from which
/// mitigation starts.
pub const DEFAULT_SCORE_THRESHOLD: u64 = 0x3FE8_0000_0000_0000;

/// How long a block lasts unless configured otherwise, in seconds.
pub const DEFAULT_BLOCK_DURATION_SECS: u64 = 60;

#[derive(Debug)]
pub struct Config {
    pub app_name: String,
    pub app_env: String,
    pub log_level: String,
    /// A binary64 bit pattern.
    pub mitigation_score_threshold: u64,
    pub mitigation_block_duration_secs: u64,
    pub mitigation_enforcement_enabled: bool,
    pub mitigation_protected_ips: Vec<String>,
}

/// The text of a setting, or the default when it is unset.
pub open spec fn spec_or_default(value: Option<String>, default: Seq<char>) -> Seq<char> {
    match value {
        Some(v) => v@,
        None => default,
    }
}

/// A setting's value or its default.
fn or_default(value: Option<String>, default: &str) -> (r: String)
    ensures
        r@ == spec_or_default(value, default@),
{
    match value {
        Some(v) => v,
        None => default.to_owned(),
    }
}

impl Config {
    /// The settings from their raw values, each `None` when unset: the
    /// threshold already read as a binary64 pattern, the other values as
    /// text. Unset or unreadable values take their defaults; the protected
    /// addresses are a comma-separated list whose items are trimmed and
    /// whose empty items are dropped.
    pub fn from_settings(
        app_name: Option<String>,
        app_env: Option<String>,
        log_level: Option<String>,
        score_threshold: Option<u64>,
        block_duration_secs: Option<String>,
        enforcement_enabled: Option<String>,
        protected_ips: Option<String>,
    ) -> (c: Config)
        ensures
            c.app_name@ == spec_or_default(app_name, "ddos-mitigation-tool"@),
            c.app_env@ == spec_or_default(app_env, "development"@),
            c.log_level@ == spec_or_default(log_level, "info"@),
            c.mitigation_score_threshold == match score_threshold {
                Some(t) => t,
                None => DEFAULT_SCORE_THRESHOLD,
            },
            c.mitigation_block_duration_secs == match block_duration_secs {
                Some(v) => match spec_parse_u64(v@) {
                    Some(secs) => secs,
                    None => DEFAULT_BLOCK_DURATION_SECS,
                },
                None => DEFAULT_BLOCK_DURATION_SECS,
            },
            c.mitigation_enforcement_enabled == match enforcement_enabled {
                Some(v) => match spec_parse_bool(v@) {
                    Some(b) => b,
                    None => false,
                },
                None => false,
            },
            c.mitigation_protected_ips@.map_values(|t: String| t@) == spec_trimmed_nonempty(
                spec_split_commas(spec_or_default(protected_ips, Seq::<char>::empty())),
            ),
    {
        let mitigation_score_threshold = match score_threshold {
            Some(t) => t,
            None => DEFAULT_SCORE_THRESHOLD,
        };
        let mitigation_block_duration_secs = match block_duration_secs {
            Some(v) => match parse_u64(v.as_str()) {
                Some(secs) => secs,
                None => DEFAULT_BLOCK_DURATION_SECS,
            },
            None => DEFAULT_BLOCK_DURATION_SECS,
        };
        let mitigation_enforcement_enabled = match enforcement_enabled {
            Some(v) => match parse_bool(v.as_str()) {
                Some(b) => b,
                None => false,
            },
            None => false,
        };
        let raw_protected = or_default(protected_ips, "");
        proof {
            reveal_strlit("");
        }
        let mitigation_protected_ips = split_trimmed_nonempty(raw_protected.as_str());
        Config {
            app_name: or_default(app_name, "ddos-mitigation-tool"),
            app_env: or_default(app_env, "development"),
            log_level: or_default(log_level, "info"),
            mitigation_score_threshold,
            mitigation_block_duration_secs,
            mitigation_enforcement_enabled,
            mitigation_protected_ips,
        }
    }

    /// Whether `ip` is one of the protected addresses.
    pub fn is_protected(&self, ip: &str) -> (b: bool)
        ensures
            b == exists|j: int|
                0 <= j < self.mitigation_protected_ips@.len()
                    && #[trigger] self.mitigation_protected_ips@[j]@ == ip@,
    {
        let key = ip.to_owned();
        let n = self.mitigation_protected_ips.len();
        let mut i: usize = 0;
        while i < n
            invariant
                n == self.mitigation_protected_ips@.len(),
                key@ == ip@,
                i <= n,
                forall|j: int| 0 <= j < i ==> self.mitigation_protected_ips@[j]@ != key@,
            decreases n - i,
        {
            if self.mitigation_protected_ips[i] == key {
                assert(self.mitigation_protected_ips@[i as int]@ == ip@);
                return true;
            }
            i = i + 1;
        }
        false
    }
}

} // verus!
