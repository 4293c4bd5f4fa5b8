//! From rules to filters: which rules are valid, which filters a rule turns
//! into, and at which layer, weight and with which conditions.

use crate::ip::{ip_literal, parse_ip, IpAddr};
use crate::proto::{
    uuid_text, ErrorView, PolicyId, Rule, RuleView,
    ServiceError, Transport,
};
use crate::text::{copy_bytes, decimal, push_decimal};
use vstd::arithmetic::power2::pow2;
use vstd::prelude::*;

verus! {

/// A GUID as one number, in the order in which it is written.
pub type Guid = u128;

/// Identity of the filtering provider. Changing it orphans installed objects.
pub const MXC_PROVIDER_GUID: Guid = 0x7a3d1bbe_3f1e_4d7a_9c4e_5a36f51e9b21;

/// Identity of the sublayer that holds all filters of the service.
pub const MXC_SUBLAYER_GUID: Guid = 0x7a3d1bbf_3f1e_4d7a_9c4e_5a36f51e9b22;

/// Weight of the sublayer among the sublayers of the machine.
pub const MXC_SUBLAYER_WEIGHT: u16 = 0x4000;

/// The layer at which outbound IPv4 connections are authorized.
pub const FWPM_LAYER_ALE_AUTH_CONNECT_V4: Guid = 0xc38d57d1_05a7_4c33_904f_7fbceee60e82;

/// The layer at which outbound IPv6 connections are authorized.
pub const FWPM_LAYER_ALE_AUTH_CONNECT_V6: Guid = 0x4a72393b_319f_44bc_84c3_ba54dcb3b6b4;

/// Weight of a `block` rule: it wins over everything else in the sublayer.
pub const WEIGHT_EXPLICIT_BLOCK: u64 = 0x2000_0000;

/// Weight of an `allow` rule: it wins over the default.
pub const WEIGHT_EXPLICIT_ALLOW: u64 = 0x1000_0000;

/// Weight of the catch-all that blocks by default.
pub const WEIGHT_DEFAULT_DENY: u64 = 1;

/// The description of every filter.
pub const FILTER_DESCRIPTION: &'static str = "MXC Tier 2 per-sandbox rule";

/// What a filter does with a connection it matches.
#[derive(Debug, Clone, Copy, PartialEq, Eq, Structural)]
pub enum FilterAction {
    Permit,
    Block,
}

/// One condition of a filter. A filter matches if all its conditions hold.
#[derive(Debug, Clone, PartialEq, Eq)]
pub enum Condition {
    /// The connecting process runs in the AppContainer with this SID.
    PackageSid(Vec<u8>),
    /// The remote address is an IPv4 address that agrees with `addr` in the
    /// bits of `mask`.
    RemoteV4 { addr: u32, mask: u32 },
    /// The remote address is an IPv6 address that agrees with `addr` in the
    /// first `prefix_length` bits.
    RemoteV6 { addr: u128, prefix_length: u8 },
    /// The remote port.
    RemotePort(u16),
    /// The number of the transport protocol.
    IpProtocol(u8),
}

/// A condition with the SID as a sequence of bytes.
pub enum ConditionView {
    PackageSid(Seq<u8>),
    RemoteV4 { addr: u32, mask: u32 },
    RemoteV6 { addr: u128, prefix_length: u8 },
    RemotePort(u16),
    IpProtocol(u8),
}

impl View for Condition {
    type V = ConditionView;

    open spec fn view(&self) -> ConditionView {
        match *self {
            Condition::PackageSid(sid) => ConditionView::PackageSid(sid@),
            Condition::RemoteV4 { addr, mask } => ConditionView::RemoteV4 { addr, mask },
            Condition::RemoteV6 { addr, prefix_length } => ConditionView::RemoteV6 {
                addr,
                prefix_length,
            },
            Condition::RemotePort(p) => ConditionView::RemotePort(p),
            Condition::IpProtocol(p) => ConditionView::IpProtocol(p),
        }
    }
}

/// A filter as it is handed to the filtering engine.
#[derive(Debug, Clone, PartialEq, Eq)]
pub struct FilterSpec {
    pub name: String,
    pub description: &'static str,
    pub provider: Guid,
    pub sublayer: Guid,
    pub layer: Guid,
    pub action: FilterAction,
    pub weight: u64,
    pub conditions: Vec<Condition>,
}

/// A filter with its texts and conditions as sequences.
pub struct FilterView {
    pub name: Seq<char>,
    pub description: Seq<char>,
    pub provider: Guid,
    pub sublayer: Guid,
    pub layer: Guid,
    pub action: FilterAction,
    pub weight: u64,
    pub conditions: Seq<ConditionView>,
}

impl View for FilterSpec {
    type V = FilterView;

    open spec fn view(&self) -> FilterView {
        FilterView {
            name: self.name@,
            description: self.description@,
            provider: self.provider,
            sublayer: self.sublayer,
            layer: self.layer,
            action: self.action,
            weight: self.weight,
            conditions: condition_views(self.conditions@),
        }
    }
}

/// The views of a list of conditions.
pub open spec fn condition_views(c: Seq<Condition>) -> Seq<ConditionView> {
    c.map_values(|x: Condition| x@)
}

/// The views of a list of filters.
pub open spec fn filter_views(f: Seq<FilterSpec>) -> Seq<FilterView> {
    f.map_values(|x: FilterSpec| x@)
}

/// The mask whose first `prefix` bits are set.
pub open spec fn v4_mask(prefix: u8) -> u32 {
    if prefix == 0 {
        0
    } else if prefix >= 32 {
        0xffff_ffff
    } else {
        0xffff_ffffu32 << ((32 - prefix) as u32)
    }
}

/// The IPv4 network mask of a prefix length; lengths above 32 count as 32.
pub fn prefix_to_v4_mask(prefix: u8) -> (mask: u32)
    ensures
        mask == v4_mask(prefix),
        forall|i: u32| i < 32 ==> ((#[trigger] (mask >> i)) & 1 == 1 <==> i >= 32 - prefix),
{
    if prefix == 0 {
        assert(forall|i: u32| i < 32 ==> (#[trigger] (0u32 >> i)) & 1 != 1) by (bit_vector);
        0
    } else if prefix >= 32 {
        assert(forall|i: u32| i < 32 ==> (#[trigger] (0xffff_ffffu32 >> i)) & 1 == 1)
            by (bit_vector);
        0xffff_ffff
    } else {
        let shift: u32 = 32 - prefix as u32;
        assert(forall|i: u32|
            i < 32 ==> ((#[trigger] ((0xffff_ffffu32 << shift) >> i)) & 1 == 1 <==> i >= shift))
            by (bit_vector)
            requires
                0 < shift < 32,
        ;
        0xffff_ffffu32 << shift
    }
}

/// The protocol number of a transport; `Any` has none.
pub open spec fn protocol_number(t: Transport) -> Option<u8> {
    match t {
        Transport::Tcp => Some(6u8),
        Transport::Udp => Some(17u8),
        Transport::Any => None,
    }
}

/// The protocol number that a filter compares for a transport.
pub fn transport_to_ip_protocol(t: Transport) -> (p: Option<u8>)
    ensures
        p == protocol_number(t),
        p == Some(6u8) <==> t is Tcp,
        p == Some(17u8) <==> t is Udp,
        p is None <==> t is Any,
{
    match t {
        Transport::Tcp => Some(6),
        Transport::Udp => Some(17),
        Transport::Any => None,
    }
}

/// The short name of a layer in filter names.
pub open spec fn short_name(layer: Guid) -> Seq<char> {
    if layer == FWPM_LAYER_ALE_AUTH_CONNECT_V4 {
        "v4"@
    } else if layer == FWPM_LAYER_ALE_AUTH_CONNECT_V6 {
        "v6"@
    } else {
        "?"@
    }
}

/// The short name of a layer.
pub fn layer_short_name(layer: Guid) -> (s: &'static str)
    ensures
        s@ == short_name(layer),
{
    if layer == FWPM_LAYER_ALE_AUTH_CONNECT_V4 {
        "v4"
    } else if layer == FWPM_LAYER_ALE_AUTH_CONNECT_V6 {
        "v6"
    } else {
        "?"
    }
}

/// The longest prefix that an address can have.
pub open spec fn address_bits(ip: IpAddr) -> u8 {
    match ip {
        IpAddr::V4(_) => 32,
        IpAddr::V6(_) => 128,
    }
}

/// Why a rule is rejected, if it is: the first of these that holds. A prefix
/// without an address, an address that is no IP literal, a prefix out of the
/// range of the address, a port of zero.
pub open spec fn rule_defect(rule: RuleView) -> Option<Seq<char>> {
    if rule.address is None && rule.prefix_length is Some {
        Some("prefix_length without address"@)
    } else if rule.address is Some && ip_literal(rule.address->0) is None {
        Some("not a valid IP literal: "@ + rule.address->0)
    } else if rule.address is Some && rule.prefix_length is Some && !(1 <= rule.prefix_length->0
        <= address_bits(ip_literal(rule.address->0)->0)) {
        Some(
            "prefix_length "@ + decimal(rule.prefix_length->0 as nat) + " out of range (1..="@
                + decimal(address_bits(ip_literal(rule.address->0)->0) as nat) + ")"@,
        )
    } else if rule.port == Some(0u16) {
        Some("port 0 is not a valid match"@)
    } else {
        None
    }
}

/// A rule is accepted exactly if its address, if any, is an IP literal, its
/// prefix length, if any, comes with an address and fits its family (1 to 32 for
/// IPv4, 1 to 128 for IPv6), and its port, if any, is not zero. Verb and
/// transport do not matter.
pub proof fn law_rule_is_accepted_iff_well_formed(rule: RuleView)
    ensures
        rule_defect(rule) is None <==> {
            &&& rule.address is Some ==> ip_literal(rule.address->0) is Some
            &&& rule.prefix_length is Some ==> rule.address is Some
            &&& rule.prefix_length is Some && ip_literal(rule.address->0)->0 is V4 ==> 1
                <= rule.prefix_length->0 <= 32
            &&& rule.prefix_length is Some && ip_literal(rule.address->0)->0 is V6 ==> 1
                <= rule.prefix_length->0 <= 128
            &&& rule.port is Some ==> 1 <= rule.port->0 <= 65535
        },
        forall|other: RuleView|
            #![trigger rule_defect(other)]
            other.address == rule.address && other.prefix_length == rule.prefix_length && other.port
                == rule.port ==> rule_defect(other) == rule_defect(rule),
{
}

/// A rejected rule is told what is wrong: the prefix length that has no address,
/// the text that is no address, the prefix length with the longest that its
/// family has, or the port; where several things are wrong, the first of these.
pub proof fn law_rejected_rule_names_its_defect(rule: RuleView)
    requires
        rule_defect(rule) is Some,
    ensures
        rule.address is None && rule.prefix_length is Some ==> rule_defect(rule)->0
            == "prefix_length without address"@,
        rule.address is None && rule.prefix_length is None ==> rule_defect(rule)->0
            == "port 0 is not a valid match"@ && rule.port == Some(0u16),
        rule.address is Some && ip_literal(rule.address->0) is None ==> rule_defect(rule)->0
            == "not a valid IP literal: "@ + rule.address->0,
        rule.address is Some && ip_literal(rule.address->0) is Some ==> {
            let ip = ip_literal(rule.address->0)->0;
            let p = rule.prefix_length->0;
            if rule.prefix_length is Some && p != 0 && (ip is V4 && p <= 32 || ip is V6 && p <= 128)
                || rule.prefix_length is None {
                rule_defect(rule)->0 == "port 0 is not a valid match"@ && rule.port == Some(0u16)
            } else {
                rule_defect(rule)->0 == "prefix_length "@ + decimal(p as nat)
                    + " out of range (1..="@ + decimal(
                    if ip is V4 {
                        32
                    } else {
                        128
                    },
                ) + ")"@
            }
        },
{
}

/// A rule on an address has a filter at the layer of its family alone; one
/// without an address has one at each of the two layers.
pub proof fn law_layers_follow_the_family(rule: RuleView, layer: Guid)
    ensures
        layers_of(rule).no_duplicates(),
        layers_of(rule).contains(layer) <==> (layer == 0xc38d57d1_05a7_4c33_904f_7fbceee60e82 && !(
        rule.address is Some && ip_literal(rule.address->0) is Some && ip_literal(
            rule.address->0,
        )->0 is V6)) || (layer == 0x4a72393b_319f_44bc_84c3_ba54dcb3b6b4 && !(rule.address is Some
            && ip_literal(rule.address->0) is Some && ip_literal(rule.address->0)->0 is V4)),
{
    let l = layers_of(rule);
    assert(l.contains(l[0]));
    if l.len() == 2 {
        assert(l.contains(l[1]));
    }
}

/// A mask of a network is a run of ones from the top, as long as the prefix, and
/// then zeros.
pub proof fn law_mask_is_a_run_of_ones(prefix: u8)
    ensures
        v4_mask(prefix) == 0x1_0000_0000 - pow2(
            (if prefix <= 32 {
                32 - prefix
            } else {
                0
            }) as nat,
        ),
{
    vstd::arithmetic::power2::lemma2_to64();
    if prefix >= 32 {
    } else if prefix > 0 {
        let k: u32 = (32 - prefix) as u32;
        assert((0xffff_ffffu32 << k) == 0x1_0000_0000u64 - (1u64 << (k as u64))) by (bit_vector)
            requires
                0 < k < 32,
        ;
        vstd::bits::lemma_u64_shl_is_mul(1, k as u64);
    }
}

fn text_with(prefix: &str, s: &str) -> (r: String)
    ensures
        r@ == prefix@ + s@,
{
    let mut r: String = prefix.to_owned();
    r.append(s);
    r
}

/// Accepts a rule or says what is wrong with it.
pub fn validate_rule(index: usize, rule: &Rule) -> (r: Result<(), ServiceError>)
    ensures
        r is Ok <==> rule_defect(rule@) is None,
        r is Ok <==> {
            let ip = ip_literal(rule.address->0@)->0;
            &&& rule.address is Some ==> ip_literal(rule.address->0@) is Some
            &&& rule.prefix_length is Some ==> rule.address is Some && rule.prefix_length->0 >= 1
                && (ip is V4 ==> rule.prefix_length->0 <= 32) && (ip is V6
                ==> rule.prefix_length->0 <= 128)
            &&& rule.port is Some ==> rule.port->0 != 0
        },
        r is Err ==> r->Err_0@ == (ErrorView::InvalidRule {
            index: index as u32,
            reason: rule_defect(rule@)->0,
        }),
{
    if rule.address.is_none() && rule.prefix_length.is_some() {
        return Err(
            ServiceError::InvalidRule {
                index: index as u32,
                reason: "prefix_length without address".to_owned(),
            },
        );
    }
    if let Some(addr) = &rule.address {
        match parse_ip(addr.as_str()) {
            None => {
                return Err(
                    ServiceError::InvalidRule {
                        index: index as u32,
                        reason: text_with("not a valid IP literal: ", addr.as_str()),
                    },
                );
            },
            Some(ip) => {
                if let Some(prefix) = rule.prefix_length {
                    let max: u8 = match ip {
                        IpAddr::V4(_) => 32,
                        IpAddr::V6(_) => 128,
                    };
                    if prefix == 0 || prefix > max {
                        let mut reason: String = "prefix_length ".to_owned();
                        push_decimal(&mut reason, prefix as u64);
                        reason.append(" out of range (1..=");
                        push_decimal(&mut reason, max as u64);
                        reason.append(")");
                        assert(reason@ == rule_defect(rule@)->0);
                        return Err(ServiceError::InvalidRule { index: index as u32, reason });
                    }
                }
            },
        }
    }
    if let Some(p) = rule.port {
        if p == 0 {
            return Err(
                ServiceError::InvalidRule {
                    index: index as u32,
                    reason: "port 0 is not a valid match".to_owned(),
                },
            );
        }
    }
    Ok(())
}

/// The layers at which a rule needs a filter: those of the family of its
/// address, both without one.
pub open spec fn layers_of(rule: RuleView) -> Seq<Guid> {
    let ip = match rule.address {
        Some(a) => ip_literal(a),
        None => None,
    };
    match ip {
        Some(IpAddr::V4(_)) => seq![FWPM_LAYER_ALE_AUTH_CONNECT_V4],
        Some(IpAddr::V6(_)) => seq![FWPM_LAYER_ALE_AUTH_CONNECT_V6],
        None => seq![FWPM_LAYER_ALE_AUTH_CONNECT_V4, FWPM_LAYER_ALE_AUTH_CONNECT_V6],
    }
}

/// The layers at which a rule needs a filter.
pub fn pick_layers(rule: &Rule) -> (layers: Vec<Guid>)
    ensures
        layers@ == layers_of(rule@),
{
    let ip: Option<IpAddr> = match &rule.address {
        Some(a) => parse_ip(a.as_str()),
        None => None,
    };
    let mut layers: Vec<Guid> = Vec::new();
    match ip {
        Some(IpAddr::V4(_)) => {
            layers.push(FWPM_LAYER_ALE_AUTH_CONNECT_V4);
        },
        Some(IpAddr::V6(_)) => {
            layers.push(FWPM_LAYER_ALE_AUTH_CONNECT_V6);
        },
        None => {
            layers.push(FWPM_LAYER_ALE_AUTH_CONNECT_V4);
            layers.push(FWPM_LAYER_ALE_AUTH_CONNECT_V6);
        },
    }
    assert(layers@ =~= layers_of(rule@));
    layers
}

/// The condition on the remote address; without a prefix length all bits
/// count.
pub open spec fn address_conditions(rule: RuleView) -> Seq<ConditionView> {
    match rule.address {
        None => Seq::empty(),
        Some(a) => match ip_literal(a) {
            None => Seq::empty(),
            Some(IpAddr::V4(n)) => seq![
                ConditionView::RemoteV4 {
                    addr: n,
                    mask: v4_mask(
                        match rule.prefix_length {
                            Some(p) => p,
                            None => 32,
                        },
                    ),
                },
            ],
            Some(IpAddr::V6(n)) => seq![
                ConditionView::RemoteV6 {
                    addr: n,
                    prefix_length: match rule.prefix_length {
                        Some(p) => p,
                        None => 128,
                    },
                },
            ],
        },
    }
}

/// The conditions of a rule: address, port and protocol, each where the rule
/// names one.
pub open spec fn rule_conditions(rule: RuleView) -> Seq<ConditionView> {
    address_conditions(rule) + (match rule.port {
        Some(p) => seq![ConditionView::RemotePort(p)],
        None => Seq::empty(),
    }) + (match protocol_number(rule.transport) {
        Some(p) => seq![ConditionView::IpProtocol(p)],
        None => Seq::empty(),
    })
}

/// The display name of a filter.
pub open spec fn filter_name(id: PolicyId, layer: Guid) -> Seq<char> {
    "MXC Policy "@ + uuid_text(id.0) + " ["@ + short_name(layer) + "]"@
}

/// The filter of a rule, or of the default, at one layer, in the sublayer of
/// the service. The first condition always ties it to the sandbox.
pub open spec fn filter_for(
    id: PolicyId,
    sid: Seq<u8>,
    layer: Guid,
    action: FilterAction,
    weight: u64,
    rule: Option<RuleView>,
) -> FilterView {
    FilterView {
        name: filter_name(id, layer),
        description: FILTER_DESCRIPTION@,
        provider: MXC_PROVIDER_GUID,
        sublayer: MXC_SUBLAYER_GUID,
        layer,
        action,
        weight,
        conditions: seq![ConditionView::PackageSid(sid)] + (match rule {
            Some(r) => rule_conditions(r),
            None => Seq::empty(),
        }),
    }
}

/// Describes one filter. Fails only on a rule whose address is no IP literal.
pub fn add_one_filter(
    id: &PolicyId,
    sid: &Vec<u8>,
    layer: Guid,
    action: FilterAction,
    weight: u64,
    rule: Option<&Rule>,
) -> (r: Result<FilterSpec, ServiceError>)
    ensures
        r is Err <==> rule is Some && rule->0.address is Some && ip_literal(
            rule->0.address->0@,
        ) is None,
        r is Err ==> r->Err_0@ == (ErrorView::InvalidRule {
            index: 0,
            reason: "not a valid IP literal: "@ + rule->0.address->0@,
        }),
        r is Ok ==> r->Ok_0@ == filter_for(
            *id,
            sid@,
            layer,
            action,
            weight,
            match rule {
                Some(x) => Some(x@),
                None => None,
            },
        ),
{
    let mut conditions: Vec<Condition> = Vec::new();
    conditions.push(Condition::PackageSid(copy_bytes(sid.as_slice())));
    let ghost want = match rule {
        Some(x) => rule_conditions(x@),
        None => Seq::empty(),
    };
    if let Some(r) = rule {
        if let Some(a) = &r.address {
            match parse_ip(a.as_str()) {
                None => {
                    return Err(
                        ServiceError::InvalidRule {
                            index: 0,
                            reason: text_with("not a valid IP literal: ", a.as_str()),
                        },
                    );
                },
                Some(IpAddr::V4(n)) => {
                    let prefix: u8 = match r.prefix_length {
                        Some(p) => p,
                        None => 32,
                    };
                    conditions.push(
                        Condition::RemoteV4 { addr: n, mask: prefix_to_v4_mask(prefix) },
                    );
                },
                Some(IpAddr::V6(n)) => {
                    let prefix: u8 = match r.prefix_length {
                        Some(p) => p,
                        None => 128,
                    };
                    conditions.push(Condition::RemoteV6 { addr: n, prefix_length: prefix });
                },
            }
        }
        if let Some(port) = r.port {
            conditions.push(Condition::RemotePort(port));
        }
        if let Some(proto) = transport_to_ip_protocol(r.transport) {
            conditions.push(Condition::IpProtocol(proto));
        }
    }
    assert(condition_views(conditions@) =~= seq![ConditionView::PackageSid(sid@)] + want);
    let mut name: String = "MXC Policy ".to_owned();
    name.append(id.text().as_str());
    name.append(" [");
    name.append(layer_short_name(layer));
    name.append("]");
    assert(name@ == filter_name(*id, layer));
    Ok(
        FilterSpec {
            name,
            description: FILTER_DESCRIPTION,
            provider: MXC_PROVIDER_GUID,
            sublayer: MXC_SUBLAYER_GUID,
            layer,
            action,
            weight,
            conditions,
        },
    )
}

/// The numbers of the transports are those of TCP and UDP, and a rule on any
/// transport names none.
pub proof fn law_protocol_numbers(t: Transport)
    ensures
        protocol_number(t) == Some(6u8) <==> t is Tcp,
        protocol_number(t) == Some(17u8) <==> t is Udp,
        protocol_number(t) is None <==> t is Any,
{
}

/// What a filter is made of: the provider and the sublayer of the service, the
/// layer, the action and the weight that it was given, the sandbox as its first
/// condition, and then as many conditions as the rule names things.
pub proof fn law_parts_of_a_filter(
    id: PolicyId,
    sid: Seq<u8>,
    layer: Guid,
    action: FilterAction,
    weight: u64,
    rule: Option<RuleView>,
)
    ensures
        ({
            let f = filter_for(id, sid, layer, action, weight, rule);
            &&& f.provider == 0x7a3d1bbe_3f1e_4d7a_9c4e_5a36f51e9b21
            &&& f.sublayer == 0x7a3d1bbf_3f1e_4d7a_9c4e_5a36f51e9b22
            &&& f.layer == layer
            &&& f.action == action
            &&& f.weight == weight
            &&& f.description == "MXC Tier 2 per-sandbox rule"@
            &&& f.conditions[0] == ConditionView::PackageSid(sid)
            &&& rule is None ==> f.conditions.len() == 1
            &&& rule matches Some(r) ==> f.conditions.len() == 1 + (if r.address is Some
                && ip_literal(r.address->0) is Some {
                1int
            } else {
                0
            }) + (if r.port is Some {
                1int
            } else {
                0
            }) + (if r.transport is Any {
                0int
            } else {
                1
            })
        }),
{
}

/// The conditions of a rule are about what the rule names: its address with its
/// prefix, all bits of it without one, its port, and its transport.
pub proof fn law_conditions_of_a_rule(r: RuleView, c: ConditionView)
    ensures
        rule_conditions(r).contains(c) <==> match c {
            ConditionView::PackageSid(_) => false,
            ConditionView::RemoteV4 { addr, mask } => r.address is Some && ip_literal(r.address->0)
                == Some(IpAddr::V4(addr)) && mask == v4_mask(
                if r.prefix_length is Some {
                    r.prefix_length->0
                } else {
                    32
                },
            ),
            ConditionView::RemoteV6 { addr, prefix_length } => r.address is Some && ip_literal(
                r.address->0,
            ) == Some(IpAddr::V6(addr)) && (if r.prefix_length is Some {
                r.prefix_length == Some(prefix_length)
            } else {
                prefix_length == 128
            }),
            ConditionView::RemotePort(p) => r.port == Some(p),
            ConditionView::IpProtocol(p) => r.transport is Tcp && p == 6 || r.transport is Udp && p
                == 17,
        },
{
    let all = rule_conditions(r);
    let a = address_conditions(r);
    let n = a.len() as int;
    let port = if r.port is Some {
        1int
    } else {
        0
    };
    if a.len() > 0 {
        assert(all[0] == a[0]);
        assert(all.contains(all[0]));
    }
    if r.port is Some {
        assert(all[n] == ConditionView::RemotePort(r.port->0));
        assert(all.contains(all[n]));
    }
    if protocol_number(r.transport) is Some {
        assert(all[n + port] == ConditionView::IpProtocol(protocol_number(r.transport)->0));
        assert(all.contains(all[n + port]));
    }
    if all.contains(c) {
        let k = choose|k: int| 0 <= k < all.len() && all[k] == c;
        if k < n {
            assert(all[k] == a[k]);
        }
    }
}

/// The name of a filter tells its policy and the family of its layer.
pub proof fn law_filter_name(id: PolicyId, layer: Guid)
    ensures
        filter_name(id, 0xc38d57d1_05a7_4c33_904f_7fbceee60e82) == "MXC Policy "@ + uuid_text(id.0)
            + " [v4]"@,
        filter_name(id, 0x4a72393b_319f_44bc_84c3_ba54dcb3b6b4) == "MXC Policy "@ + uuid_text(id.0)
            + " [v6]"@,
        layer != 0xc38d57d1_05a7_4c33_904f_7fbceee60e82 && layer
            != 0x4a72393b_319f_44bc_84c3_ba54dcb3b6b4 ==> filter_name(id, layer) == "MXC Policy "@
            + uuid_text(id.0) + " [?]"@,
{
    reveal_strlit(" [");
    reveal_strlit("]");
    reveal_strlit("v4");
    reveal_strlit("v6");
    reveal_strlit("?");
    reveal_strlit(" [v4]");
    reveal_strlit(" [v6]");
    reveal_strlit(" [?]");
    let front = "MXC Policy "@ + uuid_text(id.0);
    assert(" ["@ + "v4"@ + "]"@ =~= " [v4]"@);
    assert(" ["@ + "v6"@ + "]"@ =~= " [v6]"@);
    assert(" ["@ + "?"@ + "]"@ =~= " [?]"@);
    assert(front + " ["@ + "v4"@ + "]"@ =~= front + (" ["@ + "v4"@ + "]"@));
    assert(front + " ["@ + "v6"@ + "]"@ =~= front + (" ["@ + "v6"@ + "]"@));
    assert(front + " ["@ + "?"@ + "]"@ =~= front + (" ["@ + "?"@ + "]"@));
}

/// The view of a filter holds all that the filter holds, its conditions in their
/// order.
pub proof fn law_filter_views(filters: Seq<FilterSpec>, i: int, k: int)
    requires
        0 <= i < filters.len(),
        0 <= k < filters[i].conditions@.len(),
    ensures
        filter_views(filters).len() == filters.len(),
        ({
            let f = filters[i];
            let v = filter_views(filters)[i];
            &&& v.name == f.name@
            &&& v.description == f.description@
            &&& v.provider == f.provider
            &&& v.sublayer == f.sublayer
            &&& v.layer == f.layer
            &&& v.action == f.action
            &&& v.weight == f.weight
            &&& v.conditions.len() == f.conditions@.len()
            &&& v.conditions[k] == f.conditions@[k]@
        }),
{
}

} // verus!
