//! The proxy of a sandbox: it must be on the loopback interface, and it changes
//! the capabilities that the sandbox gets.

use crate::arbitration::{in_network, leading_bits};
use crate::ip::{ip_literal, parse_ip, IpAddr};
use crate::models::{ExecutionRequest, ProxyAddress, ScriptResponse, WxcError, WxcErrorView};
use crate::text::{same_text, texts};
use vstd::prelude::*;

verus! {

/// The error for a proxy that is not on the loopback interface.
pub const PROXY_LOOPBACK_ONLY_ERROR: &'static str =
    "Network proxy address must be an IPv4 or IPv6 loopback address. Only loopback proxy URLs are currently supported for process containers on Windows.";

/// Whether an address is on the loopback interface: 127.0.0.0/8, or ::1.
pub open spec fn is_loopback(ip: IpAddr) -> bool {
    match ip {
        IpAddr::V4(n) => n / 0x100_0000 == 127,
        IpAddr::V6(n) => n == 1,
    }
}

fn loopback(ip: IpAddr) -> (r: bool)
    ensures
        r == is_loopback(ip),
{
    match ip {
        IpAddr::V4(n) => n / 0x100_0000 == 127,
        IpAddr::V6(n) => n == 1,
    }
}

/// The loopback addresses are those of the network 127.0.0.0/8, and ::1. None
/// of another family or another network is one.
pub proof fn law_loopback_is_one_network(ip: IpAddr)
    ensures
        is_loopback(ip) <==> in_network(IpAddr::V4(0x7f00_0000), Some(8), ip) || ip == IpAddr::V6(
            1,
        ),
        is_loopback(ip) <==> match ip {
            IpAddr::V4(n) => 0x7f00_0000 <= n <= 0x7fff_ffff,
            IpAddr::V6(n) => n == 1,
        },
{
    vstd::arithmetic::power2::lemma2_to64();
    match ip {
        IpAddr::V4(n) => {
            assert(leading_bits(n as nat, 32, 8) == n as nat / 0x100_0000);
            assert(leading_bits(0x7f00_0000, 32, 8) == 127);
        },
        IpAddr::V6(_) => {},
    }
}

/// A proxy is accepted exactly if it is known to be on the loopback interface:
/// its host is a literal of 127.0.0.0/8 or ::1, or it is no literal and its
/// lookup gave addresses and nothing but such ones. What the lookup of a literal
/// gave does not matter, and one address elsewhere is enough to refuse a name.
pub proof fn law_only_loopback_hosts_pass(host: Seq<char>, lookup: Option<Seq<IpAddr>>)
    ensures
        ip_literal(host) is Some ==> (is_loopback_host(host, lookup) <==> in_network(
            IpAddr::V4(0x7f00_0000),
            Some(8),
            ip_literal(host)->0,
        ) || ip_literal(host) == Some(IpAddr::V6(1))),
        ip_literal(host) is None ==> (is_loopback_host(host, lookup) <==> (exists|ip: IpAddr|
            lookup is Some && lookup->0.contains(ip)) && !(exists|ip: IpAddr|
            #![trigger lookup->0.contains(ip)]
            lookup->0.contains(ip) && !in_network(IpAddr::V4(0x7f00_0000), Some(8), ip) && ip
                != IpAddr::V6(1))),
{
    match ip_literal(host) {
        Some(ip) => {
            law_loopback_is_one_network(ip);
        },
        None => {
            if lookup is Some {
                let v = lookup->0;
                if v.len() > 0 {
                    assert(v.contains(v[0]));
                }
                assert forall|ip: IpAddr| #[trigger] v.contains(ip) implies (is_loopback(ip)
                    <==> in_network(IpAddr::V4(0x7f00_0000), Some(8), ip) || ip == IpAddr::V6(
                    1,
                )) by {
                    law_loopback_is_one_network(ip);
                }
                if !is_loopback_host(host, lookup) && v.len() > 0 {
                    let i = choose|i: int| 0 <= i < v.len() && !is_loopback(#[trigger] v[i]);
                    assert(v.contains(v[i]));
                    law_loopback_is_one_network(v[i]);
                }
            }
        },
    }
}

/// What looking up a host gave; `None` if it failed.
pub type Lookup = Option<Vec<IpAddr>>;

/// Whether a host is on the loopback interface. A literal speaks for itself; of
/// any other host all addresses that the lookup gave must be, and there must be
/// one.
pub open spec fn is_loopback_host(host: Seq<char>, lookup: Option<Seq<IpAddr>>) -> bool {
    match ip_literal(host) {
        Some(ip) => is_loopback(ip),
        None => lookup is Some && lookup->0.len() > 0 && forall|i: int|
            0 <= i < lookup->0.len() ==> is_loopback(#[trigger] lookup->0[i]),
    }
}

/// The addresses that a lookup gave.
pub open spec fn lookup_view(lookup: Lookup) -> Option<Seq<IpAddr>> {
    match lookup {
        Some(v) => Some(v@),
        None => None,
    }
}

/// Whether a host has to be looked up: it is no literal.
pub fn needs_lookup(host: &str) -> (r: bool)
    ensures
        r == (ip_literal(host@) is None),
{
    parse_ip(host).is_none()
}

/// Rejects a proxy that is not on the loopback interface. `lookup` is what
/// looking up its host gave; it does not matter for a literal.
pub fn require_loopback_proxy(address: &ProxyAddress, lookup: &Lookup) -> (r: Result<(), WxcError>)
    ensures
        r is Ok <==> is_loopback_host(address.host@, lookup_view(*lookup)),
        ip_literal(address.host@) is Some ==> (r is Ok <==> is_loopback(
            ip_literal(address.host@)->0,
        )),
        ip_literal(address.host@) is None ==> (r is Ok <==> lookup is Some && lookup->0@.len() > 0
            && forall|i: int| 0 <= i < lookup->0@.len() ==> is_loopback(#[trigger] lookup->0@[i])),
        r is Err ==> r->Err_0@ == WxcErrorView::NetworkProxy(PROXY_LOOPBACK_ONLY_ERROR@),
{
    if let Some(ip) = parse_ip(address.host()) {
        return if loopback(ip) {
            Ok(())
        } else {
            Err(WxcError::NetworkProxy(PROXY_LOOPBACK_ONLY_ERROR.to_owned()))
        };
    }
    let resolved: &Vec<IpAddr> = match lookup {
        Some(v) => v,
        None => {
            return Err(WxcError::NetworkProxy(PROXY_LOOPBACK_ONLY_ERROR.to_owned()));
        },
    };
    let mut all: bool = true;
    let mut i: usize = 0;
    while i < resolved.len()
        invariant
            i <= resolved.len(),
            all <==> forall|k: int| 0 <= k < i ==> is_loopback(#[trigger] resolved@[k]),
        decreases resolved.len() - i,
    {
        if !loopback(resolved[i]) {
            all = false;
        }
        i = i + 1;
    }
    if resolved.len() > 0 && all {
        Ok(())
    } else {
        Err(WxcError::NetworkProxy(PROXY_LOOPBACK_ONLY_ERROR.to_owned()))
    }
}

/// Rejects a script whose proxy is not on the loopback interface. Without a
/// proxy, and for the one that is started for tests, there is nothing to check.
pub fn validate_proxy_for_runner(request: &ExecutionRequest, lookup: &Lookup) -> (r: Result<
    (),
    ScriptResponse,
>)
    ensures
        r is Ok <==> (request.policy.network_proxy.address is None || is_loopback_host(
            request.policy.network_proxy.address->0.host@,
            lookup_view(*lookup),
        )),
        r is Err ==> r->Err_0.error_message@ == PROXY_LOOPBACK_ONLY_ERROR@,
{
    if !request.policy.network_proxy.is_enabled() {
        return Ok(());
    }
    if let Some(addr) = &request.policy.network_proxy.address {
        if let Err(err) = require_loopback_proxy(addr, lookup) {
            return Err(ScriptResponse::error(err.message()));
        }
    }
    Ok(())
}

/// The capability to reach the internet.
pub const INTERNET_CLIENT: &'static str = "internetClient";

/// The capability to reach the loopback interface.
pub const NETWORK_LOOPBACK: &'static str = "networkLoopback";

/// A list without a text.
pub open spec fn without(v: Seq<Seq<char>>, text: Seq<char>) -> Seq<Seq<char>>
    decreases v.len(),
{
    if v.len() == 0 {
        Seq::empty()
    } else if v.last() == text {
        without(v.drop_last(), text)
    } else {
        without(v.drop_last(), text).push(v.last())
    }
}

/// The capabilities of a sandbox with a proxy: not the internet, but the
/// loopback interface, where the proxy is.
pub open spec fn proxied(capabilities: Seq<Seq<char>>) -> Seq<Seq<char>> {
    let kept = without(capabilities, INTERNET_CLIENT@);
    if kept.contains(NETWORK_LOOPBACK@) {
        kept
    } else {
        kept.push(NETWORK_LOOPBACK@)
    }
}

/// The line for a capability that was taken away.
pub const STRIPPED_LINE: &'static str =
    "Proxy active: stripped 'internetClient' capability; sandbox traffic is restricted to the configured proxy.";

/// The line for a capability that was added.
pub const GRANTED_LINE: &'static str =
    "Proxy active: granted 'networkLoopback' capability so the sandbox can reach the loopback proxy.";

/// The lines on what was changed.
pub open spec fn proxied_lines(capabilities: Seq<Seq<char>>) -> Seq<Seq<char>> {
    (if capabilities.contains(INTERNET_CLIENT@) {
        seq![STRIPPED_LINE@]
    } else {
        Seq::empty()
    }) + (if without(capabilities, INTERNET_CLIENT@).contains(NETWORK_LOOPBACK@) {
        Seq::empty()
    } else {
        seq![GRANTED_LINE@]
    })
}

fn holds(v: &Vec<String>, text: &str) -> (r: bool)
    ensures
        r == texts(v@).contains(text@),
{
    let mut i: usize = 0;
    while i < v.len()
        invariant
            i <= v.len(),
            forall|k: int| 0 <= k < i ==> texts(v@)[k] != text@,
        decreases v.len() - i,
    {
        assert(texts(v@)[i as int] == v@[i as int]@);
        if same_text(v[i].as_str(), text) {
            assert(texts(v@)[i as int] == text@);
            return true;
        }
        i = i + 1;
    }
    false
}

/// Adjusts the capabilities of a sandbox if it has a proxy, and appends to
/// `lines` what was changed.
pub fn apply_proxy_capability_adjustments(
    capabilities: &mut Vec<String>,
    proxy_enabled: bool,
    lines: &mut Vec<String>,
)
    ensures
        !proxy_enabled ==> texts(final(capabilities)@) == texts(old(capabilities)@) && texts(
            final(lines)@,
        ) == texts(old(lines)@),
        proxy_enabled ==> !texts(final(capabilities)@).contains("internetClient"@) && texts(
            final(capabilities)@,
        ).contains("networkLoopback"@),
        proxy_enabled ==> texts(final(capabilities)@) == proxied(texts(old(capabilities)@))
            && texts(final(lines)@) == texts(old(lines)@) + proxied_lines(
            texts(old(capabilities)@),
        ),
{
    if !proxy_enabled {
        return;
    }
    proof {
        law_proxied_capabilities(texts(capabilities@), Seq::empty());
    }
    let ghost before = texts(capabilities@);
    let stripped: bool = holds(capabilities, INTERNET_CLIENT);
    let mut kept: Vec<String> = Vec::new();
    let mut i: usize = 0;
    assert(texts(kept@) =~= without(before.take(0), INTERNET_CLIENT@));
    while i < capabilities.len()
        invariant
            i <= capabilities.len(),
            before == texts(capabilities@),
            texts(kept@) == without(before.take(i as int), INTERNET_CLIENT@),
        decreases capabilities.len() - i,
    {
        let ghost so_far = texts(kept@);
        assert(before.take(i + 1).drop_last() =~= before.take(i as int));
        assert(before[i as int] == capabilities@[i as int]@);
        if !same_text(capabilities[i].as_str(), INTERNET_CLIENT) {
            let c: String = capabilities[i].as_str().to_owned();
            kept.push(c);
            assert(texts(kept@) =~= so_far.push(c@));
        }
        i = i + 1;
    }
    assert(before.take(before.len() as int) =~= before);
    let ghost said = texts(lines@);
    if stripped {
        let line: String = STRIPPED_LINE.to_owned();
        lines.push(line);
        assert(texts(lines@) =~= said + seq![STRIPPED_LINE@]);
    }
    let ghost said_more = texts(lines@);
    let ghost rest = texts(kept@);
    if !holds(&kept, NETWORK_LOOPBACK) {
        let c: String = NETWORK_LOOPBACK.to_owned();
        kept.push(c);
        assert(texts(kept@) =~= rest.push(NETWORK_LOOPBACK@));
        let line: String = GRANTED_LINE.to_owned();
        lines.push(line);
        assert(texts(lines@) =~= said_more.push(GRANTED_LINE@));
    }
    assert(texts(lines@) =~= said + proxied_lines(before));
    *capabilities = kept;
}

proof fn lemma_without(v: Seq<Seq<char>>, text: Seq<char>, other: Seq<char>)
    ensures
        !without(v, text).contains(text),
        other != text ==> (without(v, text).contains(other) <==> v.contains(other)),
        !v.contains(text) ==> without(v, text) == v,
    decreases v.len(),
{
    if v.len() > 0 {
        let init = v.drop_last();
        let w = without(init, text);
        lemma_without(init, text, other);
        assert(v =~= init.push(v.last()));
        assert forall|x: Seq<char>| v.contains(x) <==> init.contains(x) || x == v.last() by {
            if init.contains(x) {
                let k = choose|k: int| 0 <= k < init.len() && init[k] == x;
                assert(v[k] == x);
            }
            if v.contains(x) {
                let k = choose|k: int| 0 <= k < v.len() && v[k] == x;
                if k < init.len() {
                    assert(init[k] == x);
                }
            }
            assert(v[v.len() - 1] == v.last());
        }
        assert forall|x: Seq<char>|
            w.push(v.last()).contains(x) <==> w.contains(x) || x == v.last() by {
            let p = w.push(v.last());
            if w.contains(x) {
                let k = choose|k: int| 0 <= k < w.len() && w[k] == x;
                assert(p[k] == x);
            }
            if p.contains(x) {
                let k = choose|k: int| 0 <= k < p.len() && p[k] == x;
                if k < w.len() {
                    assert(w[k] == x);
                }
            }
            assert(p[p.len() - 1] == v.last());
        }
    }
}

/// With a proxy, a sandbox cannot reach the internet directly and can reach
/// the loopback interface; all its other capabilities stay, and doing the
/// adjustment again changes nothing.
pub proof fn law_proxied_capabilities(capabilities: Seq<Seq<char>>, other: Seq<char>)
    ensures
        !proxied(capabilities).contains(INTERNET_CLIENT@),
        proxied(capabilities).contains(NETWORK_LOOPBACK@),
        other != INTERNET_CLIENT@ && other != NETWORK_LOOPBACK@ ==> (proxied(capabilities).contains(
            other,
        ) <==> capabilities.contains(other)),
        proxied(proxied(capabilities)) == proxied(capabilities),
{
    reveal_strlit("internetClient");
    reveal_strlit("networkLoopback");
    assert(INTERNET_CLIENT@ != NETWORK_LOOPBACK@) by {
        assert(INTERNET_CLIENT@.len() == 14);
        assert(NETWORK_LOOPBACK@.len() == 15);
    }
    lemma_without(capabilities, INTERNET_CLIENT@, other);
    let kept = without(capabilities, INTERNET_CLIENT@);
    let p = proxied(capabilities);
    if !kept.contains(NETWORK_LOOPBACK@) {
        assert(p[p.len() - 1] == NETWORK_LOOPBACK@);
        assert forall|x: Seq<char>| p.contains(x) <==> kept.contains(x) || x
            == NETWORK_LOOPBACK@ by {
            if kept.contains(x) {
                let k = choose|k: int| 0 <= k < kept.len() && kept[k] == x;
                assert(p[k] == x);
            }
            if p.contains(x) {
                let k = choose|k: int| 0 <= k < p.len() && p[k] == x;
                if k < kept.len() {
                    assert(kept[k] == x);
                }
            }
        }
    }
    lemma_without(p, INTERNET_CLIENT@, other);
}

/// The capabilities of a sandbox with a proxy are those that it had, in their
/// order, but the one to reach the internet, and where it had none to reach the
/// loopback interface, that one at the end.
pub proof fn law_proxied_keeps_the_order(capabilities: Seq<Seq<char>>)
    ensures
        ({
            let kept = capabilities.filter(|c: Seq<char>| c != "internetClient"@);
            proxied(capabilities) == if capabilities.contains("networkLoopback"@) {
                kept
            } else {
                kept.push("networkLoopback"@)
            }
        }),
{
    reveal_strlit("internetClient");
    reveal_strlit("networkLoopback");
    assert("internetClient"@.len() == 14 && "networkLoopback"@.len() == 15);
    lemma_without(capabilities, "internetClient"@, "networkLoopback"@);
    let keep = |c: Seq<char>| c != "internetClient"@;
    lemma_without_is_filter(capabilities, "internetClient"@, keep);
    assert(keep =~= (|c: Seq<char>| c != "internetClient"@));
}

proof fn lemma_without_is_filter(
    v: Seq<Seq<char>>,
    text: Seq<char>,
    keep: spec_fn(Seq<char>) -> bool,
)
    requires
        forall|c: Seq<char>| #[trigger] keep(c) <==> c != text,
    ensures
        without(v, text) == v.filter(keep),
    decreases v.len(),
{
    reveal(Seq::filter);
    if v.len() > 0 {
        lemma_without_is_filter(v.drop_last(), text, keep);
    }
}

/// What is changed is told, and nothing else: a line where the sandbox had the
/// capability to reach the internet, and a line where it had none to reach the
/// loopback interface.
pub proof fn law_proxied_lines(capabilities: Seq<Seq<char>>)
    ensures
        ({
            let stripped =
                "Proxy active: stripped 'internetClient' capability; sandbox traffic is restricted to the configured proxy."@;
            let granted =
                "Proxy active: granted 'networkLoopback' capability so the sandbox can reach the loopback proxy."@;
            let had = capabilities.contains("internetClient"@);
            let lacked = !capabilities.contains("networkLoopback"@);
            &&& had && lacked ==> proxied_lines(capabilities) == seq![stripped, granted]
            &&& had && !lacked ==> proxied_lines(capabilities) == seq![stripped]
            &&& !had && lacked ==> proxied_lines(capabilities) == seq![granted]
            &&& !had && !lacked ==> proxied_lines(capabilities).len() == 0
        }),
{
    reveal_strlit("internetClient");
    reveal_strlit("networkLoopback");
    assert("internetClient"@.len() == 14 && "networkLoopback"@.len() == 15);
    lemma_without(capabilities, "internetClient"@, "networkLoopback"@);
}

} // verus!
