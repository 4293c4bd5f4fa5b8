//! What installed filters do to a connection, and the law that they do what
//! the policy says.

use crate::filter::{
    address_conditions, filter_for, layers_of, protocol_number, rule_conditions, rule_defect,
    v4_mask, ConditionView, FilterAction, FilterView, Guid, FWPM_LAYER_ALE_AUTH_CONNECT_V4,
    FWPM_LAYER_ALE_AUTH_CONNECT_V6, WEIGHT_DEFAULT_DENY,
};
use crate::ip::{ip_literal, IpAddr};
use crate::policy::{
    all_valid, default_filters, plan, rule_filters, rules_filters, verb_action, verb_weight,
};
use crate::proto::{DefaultPolicy, PolicyId, RuleVerb, RuleView, Transport};
use vstd::arithmetic::power2::pow2;
use vstd::prelude::*;

verus! {

/// An outbound connection of a process in an AppContainer.
pub struct Connection {
    pub sid: Seq<u8>,
    pub remote: IpAddr,
    pub port: u16,
    pub protocol: u8,
}

/// The first `bits` of the `width` bits of a number.
pub open spec fn leading_bits(n: nat, width: nat, bits: nat) -> nat {
    n / pow2((width - bits) as nat)
}

/// Whether an address is in a network; without a prefix length the network is
/// the one address.
pub open spec fn in_network(network: IpAddr, prefix_length: Option<u8>, ip: IpAddr) -> bool {
    match (network, ip) {
        (IpAddr::V4(n), IpAddr::V4(a)) => {
            let p = match prefix_length {
                Some(p) => p as nat,
                None => 32,
            };
            leading_bits(n as nat, 32, p) == leading_bits(a as nat, 32, p)
        },
        (IpAddr::V6(n), IpAddr::V6(a)) => {
            let p = match prefix_length {
                Some(p) => p as nat,
                None => 128,
            };
            leading_bits(n as nat, 128, p) == leading_bits(a as nat, 128, p)
        },
        _ => false,
    }
}

/// Whether a rule speaks of a connection.
pub open spec fn rule_covers(rule: RuleView, c: Connection) -> bool {
    &&& rule.address is Some ==> in_network(
        ip_literal(rule.address->0)->0,
        rule.prefix_length,
        c.remote,
    )
    &&& rule.port is Some ==> c.port == rule.port->0
    &&& match rule.transport {
        Transport::Tcp => c.protocol == 6,
        Transport::Udp => c.protocol == 17,
        Transport::Any => true,
    }
}

/// What a policy for the sandbox `sid` says of a connection: a rule that
/// blocks wins over one that allows, and that over the default. Of what it
/// does not block and does not allow it says nothing.
pub open spec fn policy_verdict(
    sid: Seq<u8>,
    default: DefaultPolicy,
    rules: Seq<RuleView>,
    c: Connection,
) -> Option<FilterAction> {
    if c.sid != sid {
        None
    } else if some_rule_covers(rules, RuleVerb::Block, c) {
        Some(FilterAction::Block)
    } else if some_rule_covers(rules, RuleVerb::Allow, c) {
        Some(FilterAction::Permit)
    } else {
        match default {
            DefaultPolicy::Block => Some(FilterAction::Block),
            DefaultPolicy::Allow => None,
        }
    }
}

/// Whether a rule of this verb covers a connection.
pub open spec fn some_rule_covers(rules: Seq<RuleView>, verb: RuleVerb, c: Connection) -> bool {
    exists|i: int|
        0 <= i < rules.len() && #[trigger] rules[i].verb == verb && rule_covers(rules[i], c)
}

/// Whether a condition of a filter holds of a connection.
pub open spec fn condition_holds(cond: ConditionView, c: Connection) -> bool {
    match cond {
        ConditionView::PackageSid(sid) => c.sid == sid,
        ConditionView::RemoteV4 { addr, mask } => match c.remote {
            IpAddr::V4(a) => a & mask == addr & mask,
            IpAddr::V6(_) => false,
        },
        ConditionView::RemoteV6 { addr, prefix_length } => match c.remote {
            IpAddr::V4(_) => false,
            IpAddr::V6(a) => leading_bits(a as nat, 128, prefix_length as nat) == leading_bits(
                addr as nat,
                128,
                prefix_length as nat,
            ),
        },
        ConditionView::RemotePort(p) => c.port == p,
        ConditionView::IpProtocol(p) => c.protocol == p,
    }
}

/// Whether all conditions of a filter hold of a connection.
pub open spec fn all_hold(conditions: Seq<ConditionView>, c: Connection) -> bool {
    forall|k: int|
        0 <= k < conditions.len() ==> condition_holds(#[trigger] conditions[k], c)
}

/// Whether connections to an address pass a layer.
pub open spec fn passes(layer: Guid, remote: IpAddr) -> bool {
    match remote {
        IpAddr::V4(_) => layer == FWPM_LAYER_ALE_AUTH_CONNECT_V4,
        IpAddr::V6(_) => layer == FWPM_LAYER_ALE_AUTH_CONNECT_V6,
    }
}

/// Whether a filter matches a connection.
pub open spec fn applies(f: FilterView, c: Connection) -> bool {
    passes(f.layer, c.remote) && all_hold(f.conditions, c)
}

/// Whether a filter is among the heaviest that match a connection.
pub open spec fn wins(filters: Seq<FilterView>, f: FilterView, c: Connection) -> bool {
    &&& filters.contains(f)
    &&& applies(f, c)
    &&& forall|g: FilterView| #[trigger]
        filters.contains(g) && applies(g, c) ==> g.weight <= f.weight
}

/// What a list of filters in one sublayer does to a connection: the heaviest
/// that matches decides.
pub open spec fn verdict(filters: Seq<FilterView>, c: Connection) -> Option<FilterAction> {
    if exists|f: FilterView| wins(filters, f, c) {
        Some((choose|f: FilterView| wins(filters, f, c)).action)
    } else {
        None
    }
}

proof fn lemma_all_hold_append(a: Seq<ConditionView>, b: Seq<ConditionView>, c: Connection)
    ensures
        all_hold(a + b, c) <==> all_hold(a, c) && all_hold(b, c),
{
    let s = a + b;
    if all_hold(s, c) {
        assert forall|k: int| 0 <= k < a.len() implies condition_holds(#[trigger] a[k], c) by {
            assert(s[k] == a[k]);
        }
        assert forall|k: int| 0 <= k < b.len() implies condition_holds(#[trigger] b[k], c) by {
            assert(s[a.len() + k] == b[k]);
        }
    }
    if all_hold(a, c) && all_hold(b, c) {
        assert forall|k: int| 0 <= k < s.len() implies condition_holds(#[trigger] s[k], c) by {
            if k < a.len() {
                assert(s[k] == a[k]);
            } else {
                assert(s[k] == b[k - a.len()]);
            }
        }
    }
}

proof fn lemma_all_hold_one(x: ConditionView, c: Connection)
    ensures
        all_hold(seq![x], c) <==> condition_holds(x, c),
{
    if all_hold(seq![x], c) {
        assert(seq![x][0] == x);
    }
}

/// Masking with a network mask compares the first bits of an address.
pub proof fn law_mask_compares_leading_bits(a: u32, b: u32, prefix: u8)
    requires
        1 <= prefix <= 32,
    ensures
        a & v4_mask(prefix) == b & v4_mask(prefix) <==> leading_bits(a as nat, 32, prefix as nat)
            == leading_bits(b as nat, 32, prefix as nat),
{
    if prefix == 32 {
        vstd::arithmetic::power2::lemma2_to64();
        assert(pow2((32 - 32) as nat) == 1);
        vstd::arithmetic::div_mod::lemma_div_basics(a as int);
        vstd::arithmetic::div_mod::lemma_div_basics(b as int);
        assert(a & 0xffff_ffffu32 == a) by (bit_vector);
        assert(b & 0xffff_ffffu32 == b) by (bit_vector);
        assert(leading_bits(a as nat, 32, 32) == a as nat);
        assert(leading_bits(b as nat, 32, 32) == b as nat);
    } else {
        let s: u32 = (32 - prefix) as u32;
        vstd::bits::lemma_u32_shr_is_div(a, s);
        vstd::bits::lemma_u32_shr_is_div(b, s);
        assert(v4_mask(prefix) == 0xffff_ffffu32 << s);
        assert(leading_bits(a as nat, 32, prefix as nat) == a >> s);
        assert(leading_bits(b as nat, 32, prefix as nat) == b >> s);
        assert(a & (0xffff_ffffu32 << s) == b & (0xffff_ffffu32 << s) <==> a >> s == b >> s)
            by (bit_vector)
            requires
                0 < s < 32,
        ;
    }
}

/// The conditions of a rule hold of a connection, at the layer that it
/// passes, exactly if the rule speaks of it.
proof fn lemma_conditions(rule: RuleView, c: Connection)
    requires
        rule_defect(rule) is None,
    ensures
        all_hold(rule_conditions(rule), c) <==> rule_covers(rule, c),
{
    let port = match rule.port {
        Some(p) => seq![ConditionView::RemotePort(p)],
        None => Seq::empty(),
    };
    let proto = match protocol_number(rule.transport) {
        Some(p) => seq![ConditionView::IpProtocol(p)],
        None => Seq::empty(),
    };
    let address = address_conditions(rule);
    assert(rule_conditions(rule) == address + port + proto);
    lemma_all_hold_append(address + port, proto, c);
    lemma_all_hold_append(address, port, c);
    if rule.port is Some {
        lemma_all_hold_one(ConditionView::RemotePort(rule.port->0), c);
    }
    if protocol_number(rule.transport) is Some {
        lemma_all_hold_one(ConditionView::IpProtocol(protocol_number(rule.transport)->0), c);
    }
    if rule.address is Some {
        let ip = ip_literal(rule.address->0)->0;
        match ip {
            IpAddr::V4(n) => {
                let p: u8 = match rule.prefix_length {
                    Some(p) => p,
                    None => 32,
                };
                let cond = ConditionView::RemoteV4 { addr: n, mask: v4_mask(p) };
                assert(address == seq![cond]);
                lemma_all_hold_one(cond, c);
                if let IpAddr::V4(a) = c.remote {
                    law_mask_compares_leading_bits(a, n, p);
                }
            },
            IpAddr::V6(n) => {
                let p: u8 = match rule.prefix_length {
                    Some(p) => p,
                    None => 128,
                };
                let cond = ConditionView::RemoteV6 { addr: n, prefix_length: p };
                assert(address == seq![cond]);
                lemma_all_hold_one(cond, c);
            },
        }
    }
}

/// A filter matches exactly the connections of its sandbox, at its layer,
/// that its rule speaks of.
proof fn lemma_filter_applies(
    id: PolicyId,
    sid: Seq<u8>,
    layer: Guid,
    action: FilterAction,
    weight: u64,
    rule: Option<RuleView>,
    c: Connection,
)
    requires
        rule is Some ==> rule_defect(rule->0) is None,
    ensures
        applies(filter_for(id, sid, layer, action, weight, rule), c) <==> passes(layer, c.remote)
            && c.sid == sid && (rule is Some ==> rule_covers(rule->0, c)),
{
    let own = ConditionView::PackageSid(sid);
    lemma_all_hold_one(own, c);
    match rule {
        Some(r) => {
            lemma_all_hold_append(seq![own], rule_conditions(r), c);
            lemma_conditions(r, c);
        },
        None => {
            assert(seq![own] + Seq::<ConditionView>::empty() =~= seq![own]);
        },
    }
}

/// The filters of a list of rules are those of its rules.
proof fn lemma_rules_filters_contain(
    id: PolicyId,
    sid: Seq<u8>,
    rules: Seq<RuleView>,
    f: FilterView,
)
    ensures
        rules_filters(id, sid, rules).contains(f) <==> exists|i: int|
            0 <= i < rules.len() && #[trigger] rule_filters(id, sid, rules[i]).contains(f),
    decreases rules.len(),
{
    if rules.len() > 0 {
        let init = rules.drop_last();
        let head = rules_filters(id, sid, init);
        let tail = rule_filters(id, sid, rules.last());
        lemma_rules_filters_contain(id, sid, init, f);
        lemma_append_contains(head, tail, f);
        if head.contains(f) {
            let i = choose|i: int|
                0 <= i < init.len() && #[trigger] rule_filters(id, sid, init[i]).contains(f);
            assert(rule_filters(id, sid, rules[i]).contains(f));
        }
        if tail.contains(f) {
            assert(rule_filters(id, sid, rules[rules.len() - 1]).contains(f));
        }
        if exists|i: int|
            0 <= i < rules.len() && #[trigger] rule_filters(id, sid, rules[i]).contains(f) {
            let i = choose|i: int|
                0 <= i < rules.len() && #[trigger] rule_filters(id, sid, rules[i]).contains(f);
            if i < init.len() {
                assert(rule_filters(id, sid, init[i]).contains(f));
            }
        }
    }
}

proof fn lemma_append_contains(a: Seq<FilterView>, b: Seq<FilterView>, f: FilterView)
    ensures
        (a + b).contains(f) <==> a.contains(f) || b.contains(f),
{
    let s = a + b;
    if a.contains(f) {
        let k = choose|k: int| 0 <= k < a.len() && a[k] == f;
        assert(s[k] == f);
    }
    if b.contains(f) {
        let k = choose|k: int| 0 <= k < b.len() && b[k] == f;
        assert(s[a.len() + k] == f);
    }
    if s.contains(f) {
        let k = choose|k: int| 0 <= k < s.len() && s[k] == f;
        if k < a.len() {
            assert(a[k] == f);
        } else {
            assert(b[k - a.len()] == f);
        }
    }
}

/// Where a filter of a plan comes from: the default, or one of the rules.
pub open spec fn from_default(f: FilterView) -> bool {
    f.weight == WEIGHT_DEFAULT_DENY && f.action == FilterAction::Block
}

/// A filter with the weight and the action of a verb.
pub open spec fn from_verb(f: FilterView, verb: RuleVerb) -> bool {
    f.weight == verb_weight(verb) && f.action == verb_action(verb)
}

/// A filter of a plan that matches a connection comes from the default or
/// from a rule that speaks of the connection.
proof fn lemma_origin(
    id: PolicyId,
    sid: Seq<u8>,
    default: DefaultPolicy,
    rules: Seq<RuleView>,
    f: FilterView,
    c: Connection,
)
    requires
        all_valid(rules),
        plan(id, sid, default, rules).contains(f),
        applies(f, c),
    ensures
        c.sid == sid,
        (from_default(f) && default == DefaultPolicy::Block) || (from_verb(f, RuleVerb::Block)
            && some_rule_covers(rules, RuleVerb::Block, c)) || (from_verb(f, RuleVerb::Allow)
            && some_rule_covers(rules, RuleVerb::Allow, c)),
{
    let head = default_filters(id, sid, default);
    lemma_append_contains(head, rules_filters(id, sid, rules), f);
    if head.contains(f) {
        let k = choose|k: int| 0 <= k < head.len() && head[k] == f;
        lemma_filter_applies(
            id,
            sid,
            f.layer,
            FilterAction::Block,
            WEIGHT_DEFAULT_DENY,
            None,
            c,
        );
    } else {
        lemma_rules_filters_contain(id, sid, rules, f);
        let i = choose|i: int|
            0 <= i < rules.len() && #[trigger] rule_filters(id, sid, rules[i]).contains(f);
        let rule = rules[i];
        let own = rule_filters(id, sid, rule);
        let k = choose|k: int| 0 <= k < own.len() && own[k] == f;
        assert(own[k] == filter_for(
            id,
            sid,
            layers_of(rule)[k],
            verb_action(rule.verb),
            verb_weight(rule.verb),
            Some(rule),
        ));
        lemma_filter_applies(
            id,
            sid,
            f.layer,
            verb_action(rule.verb),
            verb_weight(rule.verb),
            Some(rule),
            c,
        );
        assert(rules[i].verb == rule.verb && rule_covers(rules[i], c));
    }
}

/// A rule that speaks of a connection of the sandbox has a filter in the plan
/// that matches it.
proof fn lemma_rule_has_filter(
    id: PolicyId,
    sid: Seq<u8>,
    default: DefaultPolicy,
    rules: Seq<RuleView>,
    verb: RuleVerb,
    c: Connection,
) -> (f: FilterView)
    requires
        all_valid(rules),
        c.sid == sid,
        some_rule_covers(rules, verb, c),
    ensures
        plan(id, sid, default, rules).contains(f),
        applies(f, c),
        from_verb(f, verb),
{
    let i = choose|i: int|
        0 <= i < rules.len() && #[trigger] rules[i].verb == verb && rule_covers(rules[i], c);
    let rule = rules[i];
    let layers = layers_of(rule);
    let own = rule_filters(id, sid, rule);
    let k: int = if passes(layers[0], c.remote) {
        0
    } else {
        1
    };
    assert(0 <= k < layers.len() && passes(layers[k], c.remote));
    let f = filter_for(
        id,
        sid,
        layers[k],
        verb_action(verb),
        verb_weight(verb),
        Some(rule),
    );
    assert(own[k] == f);
    assert(own.contains(f));
    lemma_filter_applies(
        id,
        sid,
        layers[k],
        verb_action(verb),
        verb_weight(verb),
        Some(rule),
        c,
    );
    lemma_rules_filters_contain(id, sid, rules, f);
    lemma_append_contains(default_filters(id, sid, default), rules_filters(id, sid, rules), f);
    f
}

/// A default that blocks has a filter in the plan for every connection of the
/// sandbox.
proof fn lemma_default_has_filter(
    id: PolicyId,
    sid: Seq<u8>,
    rules: Seq<RuleView>,
    c: Connection,
) -> (f: FilterView)
    requires
        c.sid == sid,
    ensures
        plan(id, sid, DefaultPolicy::Block, rules).contains(f),
        applies(f, c),
        from_default(f),
{
    let head = default_filters(id, sid, DefaultPolicy::Block);
    let k: int = match c.remote {
        IpAddr::V4(_) => 0,
        IpAddr::V6(_) => 1,
    };
    let f = head[k];
    assert(head.contains(f));
    lemma_filter_applies(
        id,
        sid,
        f.layer,
        FilterAction::Block,
        WEIGHT_DEFAULT_DENY,
        None,
        c,
    );
    lemma_append_contains(head, rules_filters(id, sid, rules), f);
    f
}

/// The filters of a policy do to every connection what the policy says: a
/// rule that blocks always wins, a rule that allows carves a hole into the
/// default, the default blocks the rest, and connections of other sandboxes
/// are left alone.
pub proof fn law_filters_decide_as_policy(
    id: PolicyId,
    sid: Seq<u8>,
    default: DefaultPolicy,
    rules: Seq<RuleView>,
    c: Connection,
)
    requires
        all_valid(rules),
    ensures
        verdict(plan(id, sid, default, rules), c) == policy_verdict(sid, default, rules, c),
{
    let p = plan(id, sid, default, rules);
    assert forall|f: FilterView| #[trigger] p.contains(f) && applies(f, c) implies c.sid == sid
        && ((from_default(f) && default == DefaultPolicy::Block) || (from_verb(
        f,
        RuleVerb::Block,
    ) && some_rule_covers(rules, RuleVerb::Block, c)) || (from_verb(f, RuleVerb::Allow)
        && some_rule_covers(rules, RuleVerb::Allow, c))) by {
        lemma_origin(id, sid, default, rules, f, c);
    }
    if c.sid == sid {
        if some_rule_covers(rules, RuleVerb::Block, c) {
            let f = lemma_rule_has_filter(id, sid, default, rules, RuleVerb::Block, c);
            assert(wins(p, f, c));
        } else if some_rule_covers(rules, RuleVerb::Allow, c) {
            let f = lemma_rule_has_filter(id, sid, default, rules, RuleVerb::Allow, c);
            assert(wins(p, f, c));
        } else if default == DefaultPolicy::Block {
            let f = lemma_default_has_filter(id, sid, rules, c);
            assert(wins(p, f, c));
        }
    }
}

/// A network is a block of addresses of one family: as many as its prefix leaves
/// free, the network address in front. Without a prefix it is the one address.
pub proof fn law_network_is_a_block(n: u32, m: u128, prefix: u8, a: u32, b: u128)
    ensures
        1 <= prefix <= 32 ==> {
            let size = pow2((32 - prefix) as nat) as int;
            in_network(IpAddr::V4(n), Some(prefix), IpAddr::V4(a)) <==> n - n as int % size <= a < n
                - n as int % size + size
        },
        1 <= prefix <= 128 ==> {
            let size = pow2((128 - prefix) as nat) as int;
            in_network(IpAddr::V6(m), Some(prefix), IpAddr::V6(b)) <==> m - m as int % size <= b < m
                - m as int % size + size
        },
        in_network(IpAddr::V4(n), None, IpAddr::V4(a)) <==> n == a,
        in_network(IpAddr::V6(m), None, IpAddr::V6(b)) <==> m == b,
        !in_network(IpAddr::V4(n), Some(prefix), IpAddr::V6(b)),
        !in_network(IpAddr::V6(m), Some(prefix), IpAddr::V4(a)),
        !in_network(IpAddr::V4(n), None, IpAddr::V6(b)),
        !in_network(IpAddr::V6(m), None, IpAddr::V4(a)),
{
    if 1 <= prefix <= 32 {
        vstd::arithmetic::power2::lemma_pow2_pos((32 - prefix) as nat);
        lemma_block(n as int, a as int, pow2((32 - prefix) as nat) as int);
    }
    if 1 <= prefix <= 128 {
        vstd::arithmetic::power2::lemma_pow2_pos((128 - prefix) as nat);
        lemma_block(m as int, b as int, pow2((128 - prefix) as nat) as int);
    }
    vstd::arithmetic::power2::lemma2_to64();
    assert(pow2((32 - 32) as nat) == 1 && pow2((128 - 128) as nat) == 1);
    vstd::arithmetic::div_mod::lemma_div_basics(n as int);
    vstd::arithmetic::div_mod::lemma_div_basics(a as int);
    vstd::arithmetic::div_mod::lemma_div_basics(m as int);
    vstd::arithmetic::div_mod::lemma_div_basics(b as int);
    assert(leading_bits(n as nat, 32, 32) == n as nat);
    assert(leading_bits(a as nat, 32, 32) == a as nat);
    assert(leading_bits(m as nat, 128, 128) == m as nat);
    assert(leading_bits(b as nat, 128, 128) == b as nat);
}

proof fn lemma_block(n: int, a: int, size: int)
    requires
        size > 0,
    ensures
        n / size == a / size <==> n - n % size <= a < n - n % size + size,
{
    let q = n / size;
    let r = a / size;
    vstd::arithmetic::div_mod::lemma_fundamental_div_mod(n, size);
    vstd::arithmetic::div_mod::lemma_fundamental_div_mod(a, size);
    vstd::arithmetic::div_mod::lemma_mod_bound(n, size);
    vstd::arithmetic::div_mod::lemma_mod_bound(a, size);
    if q != r {
        assert(size * q + size <= size * r || size * r + size <= size * q) by (nonlinear_arith)
            requires
                size > 0,
                q != r,
        ;
    }
}

} // verus!
