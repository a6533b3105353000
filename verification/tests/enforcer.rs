use ddos_mitigation_tool::mitigation::enforcer::{EnforcementResult, FirewallEnforcer};

#[test]
fn enforcement_result_variants_are_distinct() {
    assert_ne!(EnforcementResult::Applied, EnforcementResult::Failed);
}

#[test]
fn enforcer_can_be_created() {
    let _enforcer = FirewallEnforcer::new();
}

#[test]
fn block_rule_arguments() {
    let enforcer = FirewallEnforcer::new();

    assert_eq!(enforcer.rule_name("10.0.0.7"), "DDoS-Mitigation-10.0.0.7");
    assert_eq!(
        enforcer.block_rule_args("10.0.0.7"),
        vec![
            "advfirewall",
            "firewall",
            "add",
            "rule",
            "name=DDoS-Mitigation-10.0.0.7",
            "dir=in",
            "action=block",
            "remoteip=10.0.0.7",
        ]
    );
}

#[test]
fn unblock_rule_arguments() {
    let enforcer = FirewallEnforcer::new();

    assert_eq!(
        enforcer.unblock_rule_args("10.0.0.7"),
        vec!["advfirewall", "firewall", "delete", "rule", "name=DDoS-Mitigation-10.0.0.7"]
    );
}
