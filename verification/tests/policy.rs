use toppy::policy::{
    Decision, IpAddress, IpNetwork, Policy, PolicyConfig, PolicyRule, PolicyRuleConfig, Target,
};

#[test]
fn policy_allows_matching_target() {
    let rule = PolicyRule::parse("10.0.0.0/24", vec![22, 443]).expect("rule");
    let policy = Policy { allow: vec![rule] };
    let target = Target::parse("10.0.0.5", 22).expect("target");
    assert_eq!(policy.evaluate(&target), Decision::Allow);
}

#[test]
fn policy_denies_unlisted_port() {
    let rule = PolicyRule::parse("10.0.0.0/24", vec![22]).expect("rule");
    let policy = Policy { allow: vec![rule] };
    let target = Target::parse("10.0.0.5", 443).expect("target");
    assert!(matches!(policy.evaluate(&target), Decision::Deny { .. }));
}

#[test]
fn policy_denies_outside_cidr() {
    let rule = PolicyRule::parse("10.0.0.0/24", vec![22]).expect("rule");
    let policy = Policy { allow: vec![rule] };
    let target = Target::parse("10.0.1.5", 22).expect("target");
    assert!(matches!(policy.evaluate(&target), Decision::Deny { .. }));
}

#[test]
fn policy_rejects_empty_ports() {
    let err = PolicyRule::parse("10.0.0.0/24", vec![]).unwrap_err();
    assert!(err.contains("ports"));
}

#[test]
fn policy_from_config_builds_rules() {
    let cfg = PolicyConfig {
        allow: vec![PolicyRuleConfig {
            cidr: "10.0.0.0/24".to_string(),
            ports: vec![22, 443],
        }],
    };
    let policy = Policy::from_config(&cfg).expect("policy");
    let target = Target::parse("10.0.0.5", 443).expect("target");
    assert_eq!(policy.evaluate(&target), Decision::Allow);
}

#[test]
fn policy_from_config_rejects_empty_ports() {
    let cfg = PolicyConfig {
        allow: vec![PolicyRuleConfig {
            cidr: "10.0.0.0/24".to_string(),
            ports: vec![],
        }],
    };
    let err = Policy::from_config(&cfg).unwrap_err();
    assert!(err.contains("ports"));
}

#[test]
fn target_parse_gives_the_address_as_a_number() {
    assert_eq!(
        Target::parse("10.0.0.5", 22),
        Ok(Target { ip: IpAddress::V4(0x0a00_0005), port: 22 })
    );
    assert_eq!(
        Target::parse("::1", 443),
        Ok(Target { ip: IpAddress::V6(1), port: 443 })
    );
    assert_eq!(
        Target::parse("2001:db8::ff", 1),
        Ok(Target { ip: IpAddress::V6(0x2001_0db8_0000_0000_0000_0000_0000_00ff), port: 1 })
    );
    assert_eq!(
        Target::parse("gateway.example", 22),
        Err("invalid ip gateway.example: invalid IP address syntax".to_string())
    );
    assert_eq!(
        Target::parse("10.0.0.0/24", 22),
        Err("invalid ip 10.0.0.0/24: invalid IP address syntax".to_string())
    );
    assert_eq!(IpAddress::parse("192.168.1.300"), None);
    assert_eq!(IpAddress::parse(""), None);
}

#[test]
fn deny_reason_names_the_target() {
    let policy = Policy { allow: vec![] };
    let target = Target { ip: IpAddress::V4(0x7f00_0001), port: 2223 };
    assert_eq!(
        policy.evaluate(&target),
        Decision::Deny { reason: "target 127.0.0.1:2223 not allowed".to_string() }
    );
    let target = Target { ip: IpAddress::V4(0xffff_ff00), port: 0 };
    assert_eq!(
        policy.evaluate(&target),
        Decision::Deny { reason: "target 255.255.255.0:0 not allowed".to_string() }
    );
    let target = Target { ip: IpAddress::V6(1), port: 65535 };
    assert_eq!(
        policy.evaluate(&target),
        Decision::Deny { reason: "target ::1:65535 not allowed".to_string() }
    );
    assert_eq!(target.to_text(), "::1:65535");
}

#[test]
fn invalid_cidr_is_refused_with_its_text() {
    assert_eq!(
        PolicyRule::parse("not-a-network", vec![22]).unwrap_err(),
        "invalid cidr not-a-network: invalid IP address syntax"
    );
    assert_eq!(
        PolicyRule::parse("10.0.0.0/33", vec![22]).unwrap_err(),
        "invalid cidr 10.0.0.0/33: invalid IP address syntax"
    );
    assert_eq!(
        PolicyRule::parse("10.0.0.0", vec![22]).unwrap_err(),
        "invalid cidr 10.0.0.0: invalid IP address syntax"
    );
    // The empty port list is reported before the network is looked at.
    assert_eq!(
        PolicyRule::parse("not-a-network", vec![]).unwrap_err(),
        "ports must not be empty"
    );
}

#[test]
fn network_contains_by_prefix() {
    let net = IpNetwork { addr: IpAddress::V4(0x0a00_0000), prefix_len: 24 };
    assert!(net.contains(&IpAddress::V4(0x0a00_0000)));
    assert!(net.contains(&IpAddress::V4(0x0a00_00ff)));
    assert!(!net.contains(&IpAddress::V4(0x0a00_0100)));
    assert!(!net.contains(&IpAddress::V4(0x09ff_ffff)));
    assert!(!net.contains(&IpAddress::V6(0x0a00_0000)));

    // The address of a network need not be its first address.
    let net = IpNetwork { addr: IpAddress::V4(0xc0a8_0c22), prefix_len: 16 };
    assert!(net.contains(&IpAddress::V4(0xc0a8_0001)));
    assert!(!net.contains(&IpAddress::V4(0xc0a9_0001)));

    let all = IpNetwork { addr: IpAddress::V4(0x0a00_0000), prefix_len: 0 };
    assert!(all.contains(&IpAddress::V4(0)));
    assert!(all.contains(&IpAddress::V4(u32::MAX)));
    assert!(!all.contains(&IpAddress::V6(0)));

    let host = IpNetwork { addr: IpAddress::V4(0x7f00_0001), prefix_len: 32 };
    assert!(host.contains(&IpAddress::V4(0x7f00_0001)));
    assert!(!host.contains(&IpAddress::V4(0x7f00_0002)));

    let six = IpNetwork { addr: IpAddress::V6(0xfd00u128 << 112), prefix_len: 8 };
    assert!(six.contains(&IpAddress::V6((0xfd12u128 << 112) | 7)));
    assert!(!six.contains(&IpAddress::V6(0xfe00u128 << 112)));
    let six_all = IpNetwork { addr: IpAddress::V6(5), prefix_len: 0 };
    assert!(six_all.contains(&IpAddress::V6(u128::MAX)));
    let six_host = IpNetwork { addr: IpAddress::V6(5), prefix_len: 128 };
    assert!(six_host.contains(&IpAddress::V6(5)));
    assert!(!six_host.contains(&IpAddress::V6(4)));
}

#[test]
fn any_matching_rule_allows() {
    let cfg = PolicyConfig {
        allow: vec![
            PolicyRuleConfig { cidr: "10.0.0.0/8".to_string(), ports: vec![22] },
            PolicyRuleConfig { cidr: "fd00::/8".to_string(), ports: vec![53, 443] },
            PolicyRuleConfig { cidr: "127.0.0.1/32".to_string(), ports: vec![2222] },
        ],
    };
    let policy = Policy::from_config(&cfg).expect("policy");
    assert_eq!(policy.allow.len(), 3);
    let allowed = [
        Target::parse("10.200.3.4", 22).unwrap(),
        Target::parse("fd00::1", 443).unwrap(),
        Target::parse("127.0.0.1", 2222).unwrap(),
    ];
    for target in allowed {
        assert_eq!(policy.evaluate(&target), Decision::Allow);
        assert!(policy.allow.iter().any(|rule| rule.matches(&target)));
    }
    let denied = [
        Target::parse("10.200.3.4", 443).unwrap(),
        Target::parse("fe00::1", 443).unwrap(),
        Target::parse("127.0.0.1", 2223).unwrap(),
        Target::parse("127.0.0.2", 2222).unwrap(),
    ];
    for target in denied {
        assert!(matches!(policy.evaluate(&target), Decision::Deny { .. }));
        assert!(!policy.allow.iter().any(|rule| rule.matches(&target)));
    }
}

#[test]
fn from_config_reports_the_first_refused_rule() {
    let cfg = PolicyConfig {
        allow: vec![
            PolicyRuleConfig { cidr: "10.0.0.0/8".to_string(), ports: vec![22] },
            PolicyRuleConfig { cidr: "bogus".to_string(), ports: vec![22] },
            PolicyRuleConfig { cidr: "10.0.0.0/8".to_string(), ports: vec![] },
        ],
    };
    assert_eq!(
        Policy::from_config(&cfg).unwrap_err(),
        "invalid cidr bogus: invalid IP address syntax"
    );
    let empty = PolicyConfig { allow: vec![] };
    assert_eq!(Policy::from_config(&empty).unwrap().allow.len(), 0);
}

#[test]
fn policy_rule_clone_matches_the_same() {
    let rule = PolicyRule::parse("10.0.0.0/24", vec![22, 443]).unwrap();
    let copy = rule.clone();
    assert_eq!(rule, copy);
    let target = Target::parse("10.0.0.9", 443).unwrap();
    assert!(copy.matches(&target));
}
