use mxc_service::engine::{
    provider, sublayer, win32_err, Engine, SessionKind, FWP_E_ALREADY_EXISTS,
};
use mxc_service::filter::{
    add_one_filter, layer_short_name, pick_layers, prefix_to_v4_mask, transport_to_ip_protocol,
    validate_rule, Condition, FilterAction, FWPM_LAYER_ALE_AUTH_CONNECT_V4,
    FWPM_LAYER_ALE_AUTH_CONNECT_V6, MXC_PROVIDER_GUID, MXC_SUBLAYER_GUID, WEIGHT_DEFAULT_DENY,
    WEIGHT_EXPLICIT_ALLOW, WEIGHT_EXPLICIT_BLOCK,
};
use mxc_service::policy::{InstallStep, Opening, OwnedSid, PolicyManager, MAX_ACTIVE_POLICIES};
use mxc_service::proto::{DefaultPolicy, PolicyId, Rule, RuleVerb, ServiceError, Transport};
use std::collections::BTreeMap;

#[test]
fn policy_prefix_to_mask_basic() {
    assert_eq!(prefix_to_v4_mask(0), 0);
    assert_eq!(prefix_to_v4_mask(8), 0xff00_0000);
    assert_eq!(prefix_to_v4_mask(20), 0xffff_f000);
    assert_eq!(prefix_to_v4_mask(32), 0xffff_ffff);
}

#[test]
fn policy_validate_rule_rejects_prefix_without_address() {
    let r = Rule {
        verb: RuleVerb::Allow,
        transport: Transport::Tcp,
        address: None,
        prefix_length: Some(24),
        port: None,
    };
    assert!(validate_rule(0, &r).is_err());
}

#[test]
fn policy_validate_rule_rejects_bad_ip() {
    let r = Rule {
        verb: RuleVerb::Allow,
        transport: Transport::Tcp,
        address: Some("not.an.ip".into()),
        prefix_length: None,
        port: None,
    };
    assert!(validate_rule(0, &r).is_err());
}

#[test]
fn policy_validate_rule_rejects_oversize_prefix() {
    let r = Rule {
        verb: RuleVerb::Allow,
        transport: Transport::Tcp,
        address: Some("10.0.0.0".into()),
        prefix_length: Some(33),
        port: None,
    };
    assert!(validate_rule(0, &r).is_err());
}

#[test]
fn policy_validate_rule_rejects_port_zero() {
    let r = Rule {
        verb: RuleVerb::Allow,
        transport: Transport::Tcp,
        address: Some("10.0.0.1".into()),
        prefix_length: None,
        port: Some(0),
    };
    assert!(validate_rule(0, &r).is_err());
}

#[test]
fn policy_validate_rule_accepts_good_input() {
    let r = Rule {
        verb: RuleVerb::Allow,
        transport: Transport::Tcp,
        address: Some("140.82.112.0".into()),
        prefix_length: Some(20),
        port: Some(443),
    };
    assert!(validate_rule(0, &r).is_ok());
}

#[test]
fn policy_pick_layers_dual_for_wildcard() {
    let r = Rule {
        verb: RuleVerb::Block,
        transport: Transport::Any,
        address: None,
        prefix_length: None,
        port: None,
    };
    assert_eq!(pick_layers(&r).len(), 2);
}

#[test]
fn policy_owned_sid_rejects_non_appcontainer_sid() {
    assert!(OwnedSid::from_sddl("S-1-5-18", Some(vec![1, 1, 0, 0, 0, 0, 0, 5, 18, 0, 0, 0])).is_err());
    assert!(OwnedSid::from_sddl("nonsense", None).is_err());
}

fn rule(verb: RuleVerb, address: Option<&str>, prefix_length: Option<u8>, port: Option<u16>) -> Rule {
    Rule { verb, transport: Transport::Tcp, address: address.map(|a| a.to_string()), prefix_length, port }
}

fn manager() -> PolicyManager {
    match PolicyManager::open().answered(0, 7).answered(0, 0).answered(0, 0) {
        Opening::Ready(m) => m,
        other => panic!("{other:?}"),
    }
}

const SID: &str = "S-1-15-2-1-2-3-4-5-6-7";

fn sid_bytes() -> Option<Vec<u8>> {
    Some(vec![1, 2, 0, 0, 0, 0, 0, 15, 2, 0, 0, 0, 1, 0, 0, 0])
}

/// A filtering engine: installed filters by their identifiers. It refuses the
/// filter with the number `refuse`.
struct FakeEngine {
    live: BTreeMap<u64, String>,
    next: u64,
    refuse: Option<u64>,
}

impl FakeEngine {
    fn new(refuse: Option<u64>) -> Self {
        Self { live: BTreeMap::new(), next: 100, refuse }
    }

    fn add(&mut self, name: &str) -> (u32, u64) {
        if self.refuse == Some(self.next - 100) {
            return (5, 0);
        }
        self.next += 1;
        self.live.insert(self.next, name.to_string());
        (0, self.next)
    }
}

fn install(
    m: &mut PolicyManager,
    engine: &mut FakeEngine,
    default: DefaultPolicy,
    rules: &[Rule],
) -> Result<(PolicyId, u32), ServiceError> {
    let mut t = m.add_policy(SID, sid_bytes(), &default, rules)?;
    loop {
        match t.step() {
            InstallStep::Install => {
                let (rc, id) = engine.add(&t.filter().name);
                t.answered(rc, id);
            }
            InstallStep::Delete(id) => {
                assert!(engine.live.remove(&id).is_some());
                t.deleted();
            }
            InstallStep::Commit | InstallStep::Abort => return m.finish(t),
        }
    }
}

fn remove(m: &mut PolicyManager, engine: &mut FakeEngine, id: PolicyId) -> Result<u32, ServiceError> {
    let mut r = m.remove_policy(id)?;
    while let Some(f) = r.step() {
        r.answered(if engine.live.remove(&f).is_some() { 0 } else { 0x8032_0003 });
    }
    Ok(r.removed())
}

#[test]
fn documented_example_installs_three_filters() {
    let mut m = manager();
    let mut e = FakeEngine::new(None);
    let rules = [rule(RuleVerb::Allow, Some("140.82.112.0"), Some(20), Some(443))];
    let (id, count) = install(&mut m, &mut e, DefaultPolicy::Block, &rules).unwrap();
    assert_eq!(count, 3);
    assert_eq!(e.live.len(), 3);
    assert_eq!(m.active(), 1);
    let names: Vec<String> = e.live.values().cloned().collect();
    assert_eq!(names[0], format!("MXC Policy {} [v4]", id.text()));
    assert_eq!(names[1], format!("MXC Policy {} [v6]", id.text()));
    assert_eq!(names[2], format!("MXC Policy {} [v4]", id.text()));
    assert_eq!(remove(&mut m, &mut e, id).unwrap(), 3);
    assert!(e.live.is_empty());
    assert_eq!(m.active(), 0);
}

#[test]
fn refused_filter_rolls_everything_back() {
    let rules = [
        rule(RuleVerb::Block, None, None, Some(25)),
        rule(RuleVerb::Allow, Some("::1"), None, None),
    ];
    for refuse in 0..5 {
        let mut m = manager();
        let mut e = FakeEngine::new(Some(refuse));
        e.live.insert(1, "of another".to_string());
        let err = install(&mut m, &mut e, DefaultPolicy::Block, &rules).unwrap_err();
        assert_eq!(
            err.message(),
            "WFP operation failed: FwpmFilterAdd0 -> 0x00000005 (Win32 error 5 (0x00000005))"
        );
        assert_eq!(e.live.len(), 1);
        assert_eq!(m.active(), 0);
    }
    let mut m = manager();
    let mut e = FakeEngine::new(Some(5));
    assert_eq!(install(&mut m, &mut e, DefaultPolicy::Block, &rules).unwrap().1, 5);
}

#[test]
fn filters_are_deleted_in_the_order_of_their_installation() {
    let m = manager();
    let mut t = m
        .add_policy_as(PolicyId(1), SID, sid_bytes(), &DefaultPolicy::Block, &[rule(RuleVerb::Allow, None, None, None)])
        .unwrap();
    t.answered(0, 11);
    t.answered(0, 12);
    t.answered(87, 0);
    assert_eq!(t.step(), InstallStep::Delete(11));
    t.deleted();
    assert_eq!(t.step(), InstallStep::Delete(12));
    t.deleted();
    assert_eq!(t.step(), InstallStep::Abort);
}

#[test]
fn plan_holds_default_then_rules() {
    let m = manager();
    let rules = [
        rule(RuleVerb::Block, Some("10.1.2.3"), Some(8), None),
        Rule { verb: RuleVerb::Allow, transport: Transport::Any, address: Some("2001:db8::1".into()), prefix_length: None, port: Some(53) },
    ];
    let mut t = m.add_policy_as(PolicyId(2), SID, sid_bytes(), &DefaultPolicy::Block, &rules).unwrap();
    let mut plan = Vec::new();
    while t.step() == InstallStep::Install {
        plan.push(t.filter().clone());
        t.answered(0, plan.len() as u64);
    }
    assert_eq!(t.step(), InstallStep::Commit);
    let sid = Condition::PackageSid(sid_bytes().unwrap());
    assert_eq!(plan.len(), 4);
    assert_eq!(plan[0].layer, FWPM_LAYER_ALE_AUTH_CONNECT_V4);
    assert_eq!(plan[1].layer, FWPM_LAYER_ALE_AUTH_CONNECT_V6);
    for f in &plan[..2] {
        assert_eq!(f.action, FilterAction::Block);
        assert_eq!(f.weight, WEIGHT_DEFAULT_DENY);
        assert_eq!(f.conditions, vec![sid.clone()]);
    }
    for f in &plan {
        assert_eq!(f.description, "MXC Tier 2 per-sandbox rule");
        assert_eq!((f.provider, f.sublayer), (MXC_PROVIDER_GUID, MXC_SUBLAYER_GUID));
    }
    assert_eq!(plan[2].layer, FWPM_LAYER_ALE_AUTH_CONNECT_V4);
    assert_eq!(plan[2].action, FilterAction::Block);
    assert_eq!(plan[2].weight, WEIGHT_EXPLICIT_BLOCK);
    assert_eq!(
        plan[2].conditions,
        vec![
            sid.clone(),
            Condition::RemoteV4 { addr: 0x0a01_0203, mask: 0xff00_0000 },
            Condition::IpProtocol(6),
        ]
    );
    assert_eq!(plan[3].layer, FWPM_LAYER_ALE_AUTH_CONNECT_V6);
    assert_eq!(plan[3].action, FilterAction::Permit);
    assert_eq!(plan[3].weight, WEIGHT_EXPLICIT_ALLOW);
    assert_eq!(
        plan[3].conditions,
        vec![
            sid,
            Condition::RemoteV6 { addr: 0x2001_0db8_0000_0000_0000_0000_0000_0001, prefix_length: 128 },
            Condition::RemotePort(53),
        ]
    );
}

#[test]
fn weights_are_in_tiers() {
    assert_eq!(WEIGHT_EXPLICIT_BLOCK, 0x2000_0000);
    assert_eq!(WEIGHT_EXPLICIT_ALLOW, 0x1000_0000);
    assert_eq!(WEIGHT_DEFAULT_DENY, 1);
}

#[test]
fn default_that_allows_needs_no_filter() {
    let mut m = manager();
    let mut e = FakeEngine::new(None);
    assert_eq!(install(&mut m, &mut e, DefaultPolicy::Allow, &[]).unwrap().1, 0);
    assert_eq!(m.active(), 1);
}

#[test]
fn too_many_policies_are_refused_first() {
    let mut m = manager();
    let mut e = FakeEngine::new(None);
    let mut first = None;
    for _ in 0..MAX_ACTIVE_POLICIES {
        let (id, _) = install(&mut m, &mut e, DefaultPolicy::Block, &[]).unwrap();
        first.get_or_insert(id);
    }
    let bad = [rule(RuleVerb::Allow, Some("x"), None, None)];
    let err = m.add_policy("nonsense", None, &DefaultPolicy::Block, &bad).unwrap_err();
    assert_eq!(err.message(), "resource exhausted: active policies at cap (64)");
    remove(&mut m, &mut e, first.unwrap()).unwrap();
    assert!(install(&mut m, &mut e, DefaultPolicy::Block, &[]).is_ok());
}

#[test]
fn bad_rule_is_reported_before_a_bad_sid() {
    let m = manager();
    let rules = [rule(RuleVerb::Allow, None, None, None), rule(RuleVerb::Allow, Some("x"), None, None), rule(RuleVerb::Allow, None, Some(1), None)];
    let err = m.add_policy("nonsense", None, &DefaultPolicy::Block, &rules).unwrap_err();
    assert_eq!(err.message(), "invalid rule (rule #1): not a valid IP literal: x");
    let err = m.add_policy("S-1-5-18", sid_bytes(), &DefaultPolicy::Block, &rules[..1]).unwrap_err();
    assert_eq!(err.message(), "invalid AppContainer SID: S-1-5-18");
    let err = m.add_policy(SID, None, &DefaultPolicy::Block, &rules[..1]).unwrap_err();
    assert_eq!(err.message(), "invalid AppContainer SID: S-1-15-2-1-2-3-4-5-6-7");
}

#[test]
fn rule_reasons() {
    let cases = vec![
        (rule(RuleVerb::Allow, None, Some(24), Some(0)), "prefix_length without address"),
        (rule(RuleVerb::Allow, Some("10.0.0"), Some(99), None), "not a valid IP literal: 10.0.0"),
        (rule(RuleVerb::Allow, Some("10.0.0.0"), Some(33), None), "prefix_length 33 out of range (1..=32)"),
        (rule(RuleVerb::Allow, Some("10.0.0.0"), Some(0), None), "prefix_length 0 out of range (1..=32)"),
        (rule(RuleVerb::Allow, Some("::"), Some(129), None), "prefix_length 129 out of range (1..=128)"),
        (rule(RuleVerb::Allow, Some("10.0.0.0"), Some(8), Some(0)), "port 0 is not a valid match"),
    ];
    for (r, want) in cases {
        match validate_rule(4, &r) {
            Err(ServiceError::InvalidRule { index, reason }) => {
                assert_eq!(index, 4);
                assert_eq!(reason, want);
            }
            other => panic!("{other:?}"),
        }
    }
    assert!(validate_rule(0, &rule(RuleVerb::Block, Some("::"), Some(128), Some(65535))).is_ok());
}

#[test]
fn unknown_policy_cannot_be_removed() {
    let mut m = manager();
    match m.remove_policy(PolicyId(9)) {
        Err(ServiceError::UnknownPolicy(id)) => assert_eq!(id, PolicyId(9)),
        other => panic!("{other:?}"),
    }
}

#[test]
fn removal_counts_what_the_engine_confirms() {
    let mut m = manager();
    let mut e = FakeEngine::new(None);
    let (a, _) = install(&mut m, &mut e, DefaultPolicy::Block, &[]).unwrap();
    let (b, _) = install(&mut m, &mut e, DefaultPolicy::Block, &[]).unwrap();
    let gone = *e.live.keys().next().unwrap();
    e.live.remove(&gone);
    assert_eq!(remove(&mut m, &mut e, a).unwrap(), 1);
    assert_eq!(e.live.len(), 2);
    assert!(remove(&mut m, &mut e, a).is_err());
    assert_eq!(remove(&mut m, &mut e, b).unwrap(), 2);
}

#[test]
fn one_filter_of_a_bad_rule_fails() {
    let r = rule(RuleVerb::Allow, Some("bad"), None, None);
    let e = add_one_filter(&PolicyId(0), &vec![1], FWPM_LAYER_ALE_AUTH_CONNECT_V4, FilterAction::Permit, 1, Some(&r)).unwrap_err();
    assert_eq!(e.message(), "invalid rule (rule #0): not a valid IP literal: bad");
}

#[test]
fn layers_follow_the_address_family() {
    assert_eq!(pick_layers(&rule(RuleVerb::Allow, Some("1.2.3.4"), None, None)), vec![FWPM_LAYER_ALE_AUTH_CONNECT_V4]);
    assert_eq!(pick_layers(&rule(RuleVerb::Allow, Some("::1"), None, None)), vec![FWPM_LAYER_ALE_AUTH_CONNECT_V6]);
    assert_eq!(layer_short_name(FWPM_LAYER_ALE_AUTH_CONNECT_V4), "v4");
    assert_eq!(layer_short_name(FWPM_LAYER_ALE_AUTH_CONNECT_V6), "v6");
    assert_eq!(layer_short_name(0), "?");
    assert_eq!(FWPM_LAYER_ALE_AUTH_CONNECT_V4, 0xc38d57d1_05a7_4c33_904f_7fbceee60e82);
    assert_eq!(FWPM_LAYER_ALE_AUTH_CONNECT_V6, 0x4a72393b_319f_44bc_84c3_ba54dcb3b6b4);
}

#[test]
fn protocol_numbers() {
    assert_eq!(transport_to_ip_protocol(Transport::Tcp), Some(6));
    assert_eq!(transport_to_ip_protocol(Transport::Udp), Some(17));
    assert_eq!(transport_to_ip_protocol(Transport::Any), None);
}

#[test]
fn mask_compares_leading_bits() {
    for prefix in 1..=32u8 {
        let mask = prefix_to_v4_mask(prefix);
        let a = 0xc0a8_01fe_u32;
        for bit in 0..32 {
            let b = a ^ (1 << bit);
            assert_eq!(a & mask == b & mask, bit < 32 - prefix as u32);
        }
    }
    assert_eq!(prefix_to_v4_mask(200), u32::MAX);
}

#[test]
fn opening_takes_three_calls() {
    let opening = PolicyManager::open();
    assert_eq!(opening.session_kind(), Some(SessionKind::Dynamic));
    let opening = opening.answered(0, 3);
    assert_eq!(opening.session_kind(), None);
    assert_eq!(opening.answered(0, 0).answered(0, 0).session_kind(), None);
    match PolicyManager::open().answered(5, 0) {
        Opening::Failed(e) => assert_eq!(
            e.message(),
            "WFP operation failed: FwpmEngineOpen0 -> 0x00000005 (Win32 error 5 (0x00000005))"
        ),
        other => panic!("{other:?}"),
    }
    match PolicyManager::open().answered(0, 3).answered(0xabcd_ef01, 0) {
        Opening::Failed(e) => assert_eq!(
            e.message(),
            "WFP operation failed: FwpmProviderAdd0 -> 0xabcdef01 (Win32 error 2882400001 (0xABCDEF01))"
        ),
        other => panic!("{other:?}"),
    }
    match PolicyManager::open().answered(0, 3).answered(FWP_E_ALREADY_EXISTS, 0).answered(1, 0) {
        Opening::Failed(e) => assert_eq!(
            e.message(),
            "WFP operation failed: FwpmSubLayerAdd0 -> 0x00000001 (Win32 error 1 (0x00000001))"
        ),
        other => panic!("{other:?}"),
    }
    match PolicyManager::open().answered(0, 3).answered(FWP_E_ALREADY_EXISTS, 0).answered(FWP_E_ALREADY_EXISTS, 0) {
        Opening::Ready(m) => {
            assert_eq!(m.engine().handle(), 3);
            assert_eq!(m.active(), 0);
        }
        other => panic!("{other:?}"),
    }
}

#[test]
fn sessions_and_objects() {
    assert!(SessionKind::Persistent.session().is_none());
    let s = SessionKind::Dynamic.session().unwrap();
    assert_eq!((s.name, s.description, s.flags), ("mxc-service", "MXC Tier 2 policy session", 1));
    assert_eq!(Engine::open(0, 42).unwrap().handle(), 42);
    assert!(Engine::open(2, 42).is_err());
    assert_eq!(provider().key, MXC_PROVIDER_GUID);
    assert_eq!(provider().name, "MXC Service");
    let l = sublayer();
    assert_eq!((l.key, l.provider, l.weight), (MXC_SUBLAYER_GUID, MXC_PROVIDER_GUID, 0x4000));
    assert_eq!(MXC_PROVIDER_GUID, 0x7a3d1bbe_3f1e_4d7a_9c4e_5a36f51e9b21);
    assert_eq!(MXC_SUBLAYER_GUID, 0x7a3d1bbf_3f1e_4d7a_9c4e_5a36f51e9b22);
    assert_eq!(
        win32_err("X", 0x8032_0009).message(),
        "WFP operation failed: X -> 0x80320009 (Win32 error 2150760457 (0x80320009))"
    );
}
