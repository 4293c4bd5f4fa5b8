use mxc_service::filter::{pick_layers, prefix_to_v4_mask, validate_rule};
use mxc_service::policy::OwnedSid;
use mxc_service::proto::{Rule, RuleVerb, Transport};

#[test]
fn wfp_prefix_to_mask_basic() {
    assert_eq!(prefix_to_v4_mask(0), 0);
    assert_eq!(prefix_to_v4_mask(8), 0xff00_0000);
    assert_eq!(prefix_to_v4_mask(20), 0xffff_f000);
    assert_eq!(prefix_to_v4_mask(32), 0xffff_ffff);
}

#[test]
fn wfp_validate_rule_rejects_prefix_without_address() {
    let r = Rule {
        verb: RuleVerb::Allow,
        transport: Transport::Tcp,
        address: None,
        prefix_length: Some(24),
        port: None,
    };
    assert!(validate_rule(0, &r).is_err());
}

#[test]
fn wfp_validate_rule_rejects_bad_ip() {
    let r = Rule {
        verb: RuleVerb::Allow,
        transport: Transport::Tcp,
        address: Some("not.an.ip".into()),
        prefix_length: None,
        port: None,
    };
    assert!(validate_rule(0, &r).is_err());
}

#[test]
fn wfp_validate_rule_rejects_oversize_prefix() {
    let r = Rule {
        verb: RuleVerb::Allow,
        transport: Transport::Tcp,
        address: Some("10.0.0.0".into()),
        prefix_length: Some(33),
        port: None,
    };
    assert!(validate_rule(0, &r).is_err());
}

#[test]
fn wfp_validate_rule_rejects_port_zero() {
    let r = Rule {
        verb: RuleVerb::Allow,
        transport: Transport::Tcp,
        address: Some("10.0.0.1".into()),
        prefix_length: None,
        port: Some(0),
    };
    assert!(validate_rule(0, &r).is_err());
}

#[test]
fn wfp_validate_rule_accepts_good_input() {
    let r = Rule {
        verb: RuleVerb::Allow,
        transport: Transport::Tcp,
        address: Some("140.82.112.0".into()),
        prefix_length: Some(20),
        port: Some(443),
    };
    assert!(validate_rule(0, &r).is_ok());
}

#[test]
fn wfp_pick_layers_dual_for_wildcard() {
    let r = Rule {
        verb: RuleVerb::Block,
        transport: Transport::Any,
        address: None,
        prefix_length: None,
        port: None,
    };
    assert_eq!(pick_layers(&r).len(), 2);
}

#[test]
fn wfp_owned_sid_rejects_non_appcontainer_sid() {
    assert!(OwnedSid::from_sddl("S-1-5-18", Some(vec![1, 1, 0, 0, 0, 0, 0, 5, 18, 0, 0, 0])).is_err());
    assert!(OwnedSid::from_sddl("nonsense", None).is_err());
}
