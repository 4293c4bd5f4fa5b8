use mxc_service::broker::{Answer, BrokerSession};
use mxc_service::filter::{
    Condition, FilterAction, FilterSpec, FWPM_LAYER_ALE_AUTH_CONNECT_V4,
    FWPM_LAYER_ALE_AUTH_CONNECT_V6,
};
use mxc_service::ip::{parse_ip, IpAddr};
use mxc_service::models::{ContainerPolicy, NetworkPolicy};
use mxc_service::policy::{InstallStep, Opening, PolicyManager};
use mxc_service::proto::{DefaultPolicy, PolicyId, Rule, RuleVerb, Transport};

const SID: &str = "S-1-15-2-1";

fn filters(default: DefaultPolicy, rules: &[Rule]) -> Vec<FilterSpec> {
    let manager = match PolicyManager::open().answered(0, 1).answered(0, 0).answered(0, 0) {
        Opening::Ready(m) => m,
        other => panic!("{other:?}"),
    };
    let mut t = manager.add_policy_as(PolicyId(1), SID, Some(vec![7]), &default, rules).unwrap();
    let mut out = Vec::new();
    while t.step() == InstallStep::Install {
        out.push(t.filter().clone());
        t.answered(0, out.len() as u64);
    }
    out
}

fn holds(c: &Condition, sid: &[u8], remote: IpAddr, port: u16, protocol: u8) -> bool {
    match c {
        Condition::PackageSid(s) => s == sid,
        Condition::RemoteV4 { addr, mask } => {
            matches!(remote, IpAddr::V4(a) if a & mask == addr & mask)
        }
        Condition::RemoteV6 { addr, prefix_length } => {
            let shift = 128 - *prefix_length as u32;
            let head = |n: u128| n.checked_shr(shift).unwrap_or(0);
            matches!(remote, IpAddr::V6(a) if head(a) == head(*addr))
        }
        Condition::RemotePort(p) => *p == port,
        Condition::IpProtocol(p) => *p == protocol,
    }
}

fn decide(f: &[FilterSpec], sid: &[u8], remote: &str, port: u16, protocol: u8) -> Option<FilterAction> {
    let remote = parse_ip(remote).unwrap();
    let layer = match remote {
        IpAddr::V4(_) => FWPM_LAYER_ALE_AUTH_CONNECT_V4,
        IpAddr::V6(_) => FWPM_LAYER_ALE_AUTH_CONNECT_V6,
    };
    f.iter()
        .filter(|f| f.layer == layer)
        .filter(|f| f.conditions.iter().all(|c| holds(c, sid, remote, port, protocol)))
        .max_by_key(|f| f.weight)
        .map(|f| f.action)
}

fn rule(verb: RuleVerb, transport: Transport, address: Option<&str>, prefix_length: Option<u8>, port: Option<u16>) -> Rule {
    Rule { verb, transport, address: address.map(|a| a.to_string()), prefix_length, port }
}

#[test]
fn filters_decide_as_the_policy_says() {
    let rules = [
        rule(RuleVerb::Allow, Transport::Tcp, Some("140.82.112.0"), Some(20), Some(443)),
        rule(RuleVerb::Block, Transport::Any, Some("140.82.112.3"), None, None),
        rule(RuleVerb::Allow, Transport::Udp, None, None, Some(53)),
        rule(RuleVerb::Allow, Transport::Any, Some("2001:db8::"), Some(32), None),
    ];
    let f = filters(DefaultPolicy::Block, &rules);
    let block = Some(FilterAction::Block);
    let permit = Some(FilterAction::Permit);
    assert_eq!(decide(&f, &[7], "140.82.127.255", 443, 6), permit);
    assert_eq!(decide(&f, &[7], "140.82.128.0", 443, 6), block);
    assert_eq!(decide(&f, &[7], "140.82.112.1", 80, 6), block);
    assert_eq!(decide(&f, &[7], "140.82.112.1", 443, 17), block);
    assert_eq!(decide(&f, &[7], "140.82.112.3", 443, 6), block);
    assert_eq!(decide(&f, &[7], "9.9.9.9", 53, 17), permit);
    assert_eq!(decide(&f, &[7], "::1", 53, 17), permit);
    assert_eq!(decide(&f, &[7], "2001:db8:ffff::1", 1, 1), permit);
    assert_eq!(decide(&f, &[7], "2001:db9::1", 1, 1), block);
    assert_eq!(decide(&f, &[8], "9.9.9.9", 53, 17), None);
    let f = filters(DefaultPolicy::Allow, &rules);
    assert_eq!(decide(&f, &[7], "1.1.1.1", 80, 6), None);
    assert_eq!(decide(&f, &[7], "140.82.112.3", 443, 6), block);
}

#[test]
fn blocked_host_stays_blocked_when_it_is_allowed_as_well() {
    let policy = ContainerPolicy {
        default_network_policy: NetworkPolicy::Allow,
        allowed_hosts: vec!["example.com".into()],
        blocked_hosts: vec!["1.2.3.4".into()],
        ..Default::default()
    };
    let blocked: Vec<Answer> = vec![Ok(vec![])];
    let allowed: Vec<Answer> =
        vec![Ok(vec![IpAddr::V4(0x0102_0304), IpAddr::V4(0x0102_0305), IpAddr::V6(9)])];
    let request = BrokerSession::new()
        .start(SID, 1, &policy, &blocked, &allowed, &mut Vec::new())
        .unwrap();
    let f = filters(request.default, &request.rules);
    assert_eq!(decide(&f, &[7], "1.2.3.4", 443, 6), Some(FilterAction::Block));
    assert_eq!(decide(&f, &[7], "1.2.3.5", 443, 6), Some(FilterAction::Permit));
    assert_eq!(decide(&f, &[7], "::9", 443, 6), Some(FilterAction::Permit));
    assert_eq!(decide(&f, &[7], "1.2.3.6", 443, 6), None);
}
