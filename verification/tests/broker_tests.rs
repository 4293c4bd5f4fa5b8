use mxc_service::broker::{
    lookup_name, resolve, stopped, trim, Answer, BrokerSession, StartFailure, StopOutcome,
};
use mxc_service::client::ClientError;
use mxc_service::ip::{parse_ip, IpAddr};
use mxc_service::models::{
    ContainerPolicy, ExecutionRequest, NetworkPolicy, ProxyAddress, ProxyConfig, WxcError,
};
use mxc_service::network::{NetworkManager, NetworkStep};
use mxc_service::proto::{DefaultPolicy, PolicyId, RuleVerb, Transport};
use mxc_service::proxy::{
    apply_proxy_capability_adjustments, needs_lookup, require_loopback_proxy,
    validate_proxy_for_runner,
};

fn empty_policy() -> ContainerPolicy {
    ContainerPolicy {
        default_network_policy: NetworkPolicy::Allow,
        allowed_hosts: vec![],
        blocked_hosts: vec![],
        ..Default::default()
    }
}

#[test]
fn applies_to_false_for_default_allow_no_lists() {
    assert!(!BrokerSession::applies_to(&empty_policy()));
}

#[test]
fn applies_to_true_for_block_default() {
    let mut p = empty_policy();
    p.default_network_policy = NetworkPolicy::Block;
    assert!(BrokerSession::applies_to(&p));
}

#[test]
fn applies_to_true_for_blocked_hosts() {
    let mut p = empty_policy();
    p.blocked_hosts = vec!["8.8.8.8".into()];
    assert!(BrokerSession::applies_to(&p));
}

#[test]
fn resolve_passes_through_ip_literal() {
    let mut lines = Vec::new();
    let addrs = resolve("8.8.8.8", &Err("not asked".into()), &mut lines);
    assert_eq!(addrs, vec![parse_ip("8.8.8.8").unwrap()]);
    assert_eq!(addrs, vec![IpAddr::V4(0x0808_0808)]);
    assert!(lines.is_empty());
}

#[test]
fn new_manager_has_no_state() {
    let mgr = NetworkManager::new();
    assert!(!mgr.rules_applied());
    assert!(mgr.proxy_address().is_none());
}

fn addr(host: &str) -> ProxyAddress {
    ProxyAddress::new(host.to_string(), 8080)
}

#[test]
fn loopback_ipv4_literal_is_accepted() {
    require_loopback_proxy(&addr("127.0.0.1"), &None).unwrap();
    require_loopback_proxy(&addr("127.5.0.99"), &None).unwrap();
}

#[test]
fn loopback_ipv6_literal_is_accepted() {
    require_loopback_proxy(&addr("::1"), &None).unwrap();
}

#[test]
fn non_loopback_literal_is_rejected() {
    assert!(require_loopback_proxy(&addr("10.0.0.1"), &None).is_err());
    assert!(require_loopback_proxy(&addr("8.8.8.8"), &None).is_err());
    assert!(require_loopback_proxy(&addr("2001:4860:4860::8888"), &None).is_err());
}

#[test]
fn invalid_host_is_rejected_with_generic_message() {
    let host = "definitely.not.a.real.host.invalid.";
    assert!(needs_lookup(host));
    let err = require_loopback_proxy(&addr(host), &None)
        .expect_err("should reject unresolvable host");
    assert!(err.message().contains("loopback"));
}

#[test]
fn every_address_of_a_proxy_must_be_loopback() {
    let lo = IpAddr::V4(0x7f00_0001);
    let out = IpAddr::V4(0x0a00_0001);
    let host = addr("proxy.local");
    require_loopback_proxy(&host, &Some(vec![lo, IpAddr::V6(1)])).unwrap();
    assert!(require_loopback_proxy(&host, &Some(vec![lo, out])).is_err());
    assert!(require_loopback_proxy(&host, &Some(vec![])).is_err());
    assert!(require_loopback_proxy(&addr("::ffff:127.0.0.1"), &Some(vec![lo])).is_err());
    assert!(!needs_lookup("127.0.0.1"));
}

#[test]
fn capability_adjustment_noop_when_proxy_disabled() {
    let mut caps = vec!["internetClient".to_string(), "registryRead".to_string()];
    apply_proxy_capability_adjustments(&mut caps, false, &mut Vec::new());
    assert_eq!(caps, vec!["internetClient", "registryRead"]);
}

#[test]
fn capability_adjustment_strips_internet_client_when_proxy_enabled() {
    let mut caps = vec!["internetClient".to_string(), "registryRead".to_string()];
    let mut lines = Vec::new();
    apply_proxy_capability_adjustments(&mut caps, true, &mut lines);
    assert!(!caps.iter().any(|c| c == "internetClient"));
    assert!(caps.iter().any(|c| c == "networkLoopback"));
    assert!(caps.iter().any(|c| c == "registryRead"));
    assert_eq!(
        lines,
        vec![
            "Proxy active: stripped 'internetClient' capability; sandbox traffic is restricted to the configured proxy.",
            "Proxy active: granted 'networkLoopback' capability so the sandbox can reach the loopback proxy."
        ]
    );
    let once = caps.clone();
    apply_proxy_capability_adjustments(&mut caps, true, &mut lines);
    assert_eq!(caps, once);
    assert_eq!(lines.len(), 2);
}

#[test]
fn capability_adjustment_adds_loopback_when_absent() {
    let mut caps: Vec<String> = vec![];
    apply_proxy_capability_adjustments(&mut caps, true, &mut Vec::new());
    assert_eq!(caps, vec!["networkLoopback"]);
}

#[test]
fn capability_adjustment_does_not_duplicate_loopback() {
    let mut caps = vec!["networkLoopback".to_string()];
    apply_proxy_capability_adjustments(&mut caps, true, &mut Vec::new());
    assert_eq!(caps, vec!["networkLoopback"]);
}

#[test]
fn nothing_is_reachable_by_default() {
    let req = ExecutionRequest::default();
    assert_eq!(req.policy.default_network_policy, NetworkPolicy::Block);
    assert!(req.policy.allowed_hosts.is_empty());
    assert!(req.policy.blocked_hosts.is_empty());
    assert!(!req.policy.network_proxy.is_enabled());
}

#[test]
fn validate_proxy_for_runner_accepts_no_proxy() {
    let req = ExecutionRequest::default();
    validate_proxy_for_runner(&req, &None).unwrap();
}

#[test]
fn validate_proxy_for_runner_accepts_loopback_address() {
    let mut req = ExecutionRequest::default();
    req.policy.network_proxy = ProxyConfig {
        address: Some(addr("127.0.0.1")),
        builtin_test_server: false,
    };
    validate_proxy_for_runner(&req, &None).unwrap();
}

#[test]
fn validate_proxy_for_runner_rejects_non_loopback_address() {
    let mut req = ExecutionRequest::default();
    req.policy.network_proxy = ProxyConfig {
        address: Some(addr("8.8.8.8")),
        builtin_test_server: false,
    };
    let resp = validate_proxy_for_runner(&req, &None).expect_err("non-loopback must be rejected");
    assert!(resp.error_message.contains("loopback"));
}

#[test]
fn validate_proxy_for_runner_skips_check_for_builtin_server() {
    let mut req = ExecutionRequest::default();
    req.policy.network_proxy = ProxyConfig {
        address: None,
        builtin_test_server: true,
    };
    validate_proxy_for_runner(&req, &None).unwrap();
}

#[test]
fn hosts_are_trimmed() {
    for s in ["", " ", " a ", "\u{3000}a b\u{2003}\u{a0}", "\u{200b}a", "\t\r\n\u{b}\u{c}x\u{85}", "\u{feff}y\u{1680}"] {
        assert_eq!(trim(s), s.trim());
    }
    assert_eq!(lookup_name(" example.com\n").as_deref(), Some("example.com"));
    assert_eq!(lookup_name(" 8.8.8.8 "), None);
    assert_eq!(lookup_name("   "), None);
}

#[test]
fn lookups_are_kept_once() {
    let a = IpAddr::V4(1);
    let b = IpAddr::V6(2);
    let mut lines = Vec::new();
    assert_eq!(resolve("h", &Ok(vec![b, a, b, a]), &mut lines), vec![b, a]);
    assert!(lines.is_empty());
    assert!(resolve("h", &Ok(vec![]), &mut lines).is_empty());
    assert!(resolve("h", &Err("no such host".into()), &mut lines).is_empty());
    assert_eq!(
        lines,
        vec![
            "broker: warn — 'h' resolved to no addresses",
            "broker: warn — 'h' DNS resolution failed: no such host"
        ]
    );
}

#[test]
fn session_asks_for_blocked_hosts_first() {
    let mut p = empty_policy();
    p.allowed_hosts = vec!["example.com".into(), " ".into(), "::0001".into()];
    p.blocked_hosts = vec![" 8.8.8.8 ".into()];
    let blocked: Vec<Answer> = vec![Err("unused".into())];
    let allowed: Vec<Answer> = vec![Ok(vec![IpAddr::V4(0x0102_0304)]), Ok(vec![]), Ok(vec![])];
    let mut lines = Vec::new();
    let s = BrokerSession::new();
    let req = s.start("S-1-15-2-1", 77, &p, &blocked, &allowed, &mut lines).unwrap();
    assert_eq!(req.ac_sid_sddl, "S-1-15-2-1");
    assert_eq!(req.default, DefaultPolicy::Allow);
    assert_eq!(req.sandbox_pid, 77);
    let got: Vec<(RuleVerb, Option<String>)> =
        req.rules.iter().map(|r| (r.verb, r.address.clone())).collect();
    assert_eq!(
        got,
        vec![
            (RuleVerb::Block, Some("8.8.8.8".to_string())),
            (RuleVerb::Allow, Some("1.2.3.4".to_string())),
            (RuleVerb::Allow, Some("::1".to_string())),
        ]
    );
    for r in &req.rules {
        assert_eq!((r.transport, r.prefix_length, r.port), (Transport::Any, None, None));
        assert!(mxc_service::filter::validate_rule(0, r).is_ok());
    }
    assert_eq!(
        lines,
        vec!["broker: AddPolicy ac_sid=S-1-15-2-1 default=Allow rules=3 sandbox_pid=77"]
    );
    assert!(s.start("x", 1, &empty_policy(), &vec![], &vec![], &mut lines).is_none());
    assert_eq!(lines.len(), 1);
}

#[test]
fn session_holds_its_policy_until_it_stops() {
    let id = PolicyId(5);
    let mut s = BrokerSession::default();
    let mut lines = Vec::new();
    let e = s
        .started(Err(StartFailure::Connect(ClientError::Lrpc("down".into()))), &mut lines)
        .unwrap_err();
    assert_eq!(e.message(), "broker connect: lrpc: down");
    let e = s
        .started(Err(StartFailure::AddPolicy(ClientError::Lrpc("down".into()))), &mut lines)
        .unwrap_err();
    assert!(matches!(&e, WxcError::Firewall(m) if m == "broker AddPolicy: lrpc: down"));
    assert!(!s.is_active());
    assert!(s.started(Ok((id, 4)), &mut lines).unwrap());
    assert!(s.is_active());
    assert_eq!(
        lines,
        vec!["broker: policy_id=00000000-0000-0000-0000-000000000005 filters_installed=4"]
    );
    assert_eq!(s.stop(), Some(id));
    assert_eq!(s.stop(), None);
    assert!(!s.is_active());
    assert_eq!(
        stopped(id, &StopOutcome::Removed(4)),
        "broker: RemovePolicy policy_id=00000000-0000-0000-0000-000000000005 filters_removed=4"
    );
    assert_eq!(
        stopped(id, &StopOutcome::Failed(ClientError::Lrpc("x".into()))),
        "broker: RemovePolicy 00000000-0000-0000-0000-000000000005 failed: lrpc: x"
    );
    assert_eq!(
        stopped(id, &StopOutcome::NoConnection(ClientError::Lrpc("x".into()))),
        "broker: RemovePolicy 00000000-0000-0000-0000-000000000005 skipped (connect failed: lrpc: x)"
    );
}

#[test]
fn failed_broker_takes_the_proxy_down() {
    let mut p = empty_policy();
    let mut m = NetworkManager::default();
    match m.start(&p, "S-1-15-2-1", 77) {
        NetworkStep::StartBroker { principal, pid } => {
            assert_eq!((principal.as_str(), pid), ("S-1-15-2-1", 77));
        }
        other => panic!("{other:?}"),
    }
    p.network_proxy.builtin_test_server = true;
    let (sid, process) = match m.start(&p, "S-1-15-2-1", 77) {
        NetworkStep::StartProxy { principal, pid } => (principal, pid),
        other => panic!("{other:?}"),
    };
    assert_eq!((sid.as_str(), process), ("S-1-15-2-1", 77));
    let e = WxcError::NetworkProxy("no port".into());
    assert!(matches!(m.proxy_started(Err(e), sid.clone(), process), NetworkStep::Fail(_)));
    match m.proxy_started(Ok(addr("127.0.0.1")), sid, process) {
        NetworkStep::StartBroker { principal, pid } => {
            assert_eq!((principal.as_str(), pid), ("S-1-15-2-1", 77));
        }
        other => panic!("{other:?}"),
    }
    assert_eq!(m.proxy_address().unwrap().host(), "127.0.0.1");
    let e = WxcError::Firewall("refused".into());
    assert!(matches!(m.broker_started(Err(e)), NetworkStep::StopProxyAndFail(_)));
    assert!(m.proxy_address().is_none());
    let e = WxcError::Firewall("refused".into());
    assert!(matches!(m.broker_started(Err(e)), NetworkStep::Fail(_)));
}

#[test]
fn policy_without_filters_applies_no_rules() {
    let mut m = NetworkManager::new();
    let mut lines = Vec::new();
    assert!(m.broker().started(Ok((PolicyId(3), 0)), &mut lines).unwrap());
    assert!(m.broker().is_active());
    assert!(!m.rules_applied());
    assert_eq!(m.stop_all(true).policy, Some(PolicyId(3)));
    assert!(m.broker().started(Ok((PolicyId(4), 2)), &mut lines).unwrap());
    assert!(m.rules_applied());
}

#[test]
fn teardown_is_idempotent() {
    let mut m = NetworkManager::new();
    let mut lines = Vec::new();
    assert!(matches!(
        m.proxy_started(Ok(addr("::1")), "S-1-15-2-1".into(), 5),
        NetworkStep::StartBroker { .. }
    ));
    let r = m.broker().started(Ok((PolicyId(3), 1)), &mut lines);
    assert!(matches!(m.broker_started(r), NetworkStep::Ready));
    assert!(m.rules_applied());
    let t = m.stop_all(false);
    assert_eq!((t.policy, t.stop_proxy), (None, true));
    assert!(m.rules_applied());
    let t = m.stop_all(true);
    assert_eq!((t.policy, t.stop_proxy), (Some(PolicyId(3)), false));
    let t = m.stop_all(true);
    assert_eq!((t.policy, t.stop_proxy), (None, false));
}
