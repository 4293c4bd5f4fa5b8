//! The broker session of a sandbox: the hosts that a script names become rules
//! for the service, and what the service installs is removed again.

use crate::arbitration::{
    law_filters_decide_as_policy, leading_bits, rule_covers, some_rule_covers, verdict, Connection,
};
use crate::client::{client_message, ClientError};
use crate::debug::{default_debug, default_text};
use crate::filter::{rule_defect, FilterAction};
use crate::ip::{ip_literal, parse_ip, IpAddr};
use crate::ip_text::{format_ip, ip_text, law_ip_text_reads_back};
use crate::models::{ContainerPolicy, NetworkPolicy, WxcError, WxcErrorView};
use crate::policy::{all_valid, plan};
use crate::proto::{
    rule_views, uuid_text, AddPolicyRequest, DefaultPolicy, PolicyId, Rule, RuleVerb,
    RuleView, Transport,
};
use crate::text::{chars_of, decimal, lemma_char, push_decimal, string_of, texts};
use vstd::prelude::*;

verus! {

/// The characters that count as white space.
pub open spec fn is_space(c: char) -> bool {
    ||| '\u{9}' <= c <= '\u{d}'
    ||| c == '\u{20}'
    ||| c == '\u{85}'
    ||| c == '\u{a0}'
    ||| c == '\u{1680}'
    ||| '\u{2000}' <= c <= '\u{200a}'
    ||| c == '\u{2028}'
    ||| c == '\u{2029}'
    ||| c == '\u{202f}'
    ||| c == '\u{205f}'
    ||| c == '\u{3000}'
}

fn space(c: char) -> (r: bool)
    ensures
        r == is_space(c),
{
    ('\u{9}' <= c && c <= '\u{d}') || c == '\u{20}' || c == '\u{85}' || c == '\u{a0}' || c
        == '\u{1680}' || ('\u{2000}' <= c && c <= '\u{200a}') || c == '\u{2028}' || c == '\u{2029}'
        || c == '\u{202f}' || c == '\u{205f}' || c == '\u{3000}'
}

/// A text without white space at its front.
pub open spec fn trim_front(s: Seq<char>) -> Seq<char>
    decreases s.len(),
{
    if s.len() > 0 && is_space(s[0]) {
        trim_front(s.skip(1))
    } else {
        s
    }
}

/// A text without white space at its back.
pub open spec fn trim_back(s: Seq<char>) -> Seq<char>
    decreases s.len(),
{
    if s.len() > 0 && is_space(s.last()) {
        trim_back(s.drop_last())
    } else {
        s
    }
}

/// A text without white space around it.
pub open spec fn trimmed(s: Seq<char>) -> Seq<char> {
    trim_back(trim_front(s))
}

/// White space is what Unicode calls so: these 25 characters, by their numbers.
pub proof fn law_white_space(c: char)
    ensures
        is_space(c) <==> {
            let n = c as u32;
            ||| n == 9 || n == 10 || n == 11 || n == 12 || n == 13
            ||| n == 32 || n == 133 || n == 160 || n == 5760
            ||| n == 8192 || n == 8193 || n == 8194 || n == 8195 || n == 8196 || n == 8197
            ||| n == 8198 || n == 8199 || n == 8200 || n == 8201 || n == 8202
            ||| n == 8232 || n == 8233 || n == 8239 || n == 8287 || n == 12288
        },
{
    lemma_char(c);
}

proof fn lemma_trim_front(s: Seq<char>) -> (i: int)
    ensures
        0 <= i <= s.len(),
        trim_front(s) == s.skip(i),
        forall|k: int| 0 <= k < i ==> is_space(#[trigger] s[k]),
        i < s.len() ==> !is_space(s[i]),
    decreases s.len(),
{
    if s.len() > 0 && is_space(s[0]) {
        let i = lemma_trim_front(s.skip(1));
        assert(s.skip(1).skip(i) =~= s.skip(i + 1));
        assert forall|k: int| 0 <= k < i + 1 implies is_space(#[trigger] s[k]) by {
            if k > 0 {
                assert(s.skip(1)[k - 1] == s[k]);
            }
        }
        i + 1
    } else {
        assert(s.skip(0) =~= s);
        0
    }
}

proof fn lemma_trim_back(s: Seq<char>) -> (j: int)
    ensures
        0 <= j <= s.len(),
        trim_back(s) == s.take(j),
        forall|k: int| j <= k < s.len() ==> is_space(#[trigger] s[k]),
        j > 0 ==> !is_space(s[j - 1]),
    decreases s.len(),
{
    if s.len() > 0 && is_space(s.last()) {
        let j = lemma_trim_back(s.drop_last());
        assert(s.drop_last().take(j) =~= s.take(j));
        assert forall|k: int| j <= k < s.len() implies is_space(#[trigger] s[k]) by {
            if k < s.len() - 1 {
                assert(s.drop_last()[k] == s[k]);
            }
        }
        j
    } else {
        assert(s.take(s.len() as int) =~= s);
        s.len() as int
    }
}

/// What is trimmed is white space around a text, all of it and nothing else:
/// the rest stands in the text as one piece, and neither begins nor ends with
/// white space.
pub proof fn law_trim_takes_the_white_space_around(s: Seq<char>)
    ensures
        exists|i: int, j: int|
            #![trigger s.subrange(i, j)]
            0 <= i <= j <= s.len() && trimmed(s) == s.subrange(i, j) && (forall|k: int|
                0 <= k < i || j <= k < s.len() ==> is_space(#[trigger] s[k])),
        trimmed(s).len() > 0 ==> !is_space(trimmed(s)[0]) && !is_space(trimmed(s).last()),
{
    let i = lemma_trim_front(s);
    let front = s.skip(i);
    let n = lemma_trim_back(front);
    let j = i + n;
    assert(front.take(n) =~= s.subrange(i, j));
    assert forall|k: int| 0 <= k < i || j <= k < s.len() implies is_space(#[trigger] s[k]) by {
        if k >= j {
            assert(front[k - i] == s[k]);
        }
    }
    if n > 0 {
        assert(front[0] == s[i]);
        assert(front[n - 1] == s[j - 1]);
    }
}

/// A text without white space around it.
pub fn trim(s: &str) -> (r: String)
    ensures
        r@ == trimmed(s@),
{
    let c: Vec<char> = chars_of(s);
    let mut start: usize = 0;
    assert(s@.skip(0) =~= s@);
    while start < c.len() && space(c[start])
        invariant
            start <= c.len(),
            c@ == s@,
            trim_front(s@.skip(start as int)) == trim_front(s@),
        decreases c.len() - start,
    {
        assert(s@.skip(start as int).skip(1) =~= s@.skip(start + 1));
        start = start + 1;
    }
    let ghost front = s@.skip(start as int);
    assert(front == trim_front(s@));
    let mut end: usize = c.len();
    assert(front =~= s@.subrange(start as int, end as int));
    while end > start && space(c[end - 1])
        invariant
            start <= end <= c.len(),
            c@ == s@,
            front == trim_front(s@),
            trim_back(s@.subrange(start as int, end as int)) == trim_back(front),
        decreases end,
    {
        let ghost part = s@.subrange(start as int, end as int);
        assert(part.last() == c@[end - 1]);
        assert(part.drop_last() =~= s@.subrange(start as int, end - 1));
        end = end - 1;
    }
    let ghost part = s@.subrange(start as int, end as int);
    assert(part == trimmed(s@)) by {
        if end > start {
            assert(part.last() == c@[end - 1]);
        }
    }
    let mut kept: Vec<char> = Vec::new();
    let mut i: usize = start;
    while i < end
        invariant
            start <= i <= end <= c.len(),
            c@ == s@,
            kept@ == s@.subrange(start as int, i as int),
        decreases end - i,
    {
        kept.push(c[i]);
        i = i + 1;
        assert(s@.subrange(start as int, i as int) =~= s@.subrange(start as int, i - 1).push(
            s@[i - 1],
        ));
    }
    string_of(kept.as_slice())
}

/// What looking up a host gave: its addresses, or the text of the error.
pub type Answer = Result<Vec<IpAddr>, String>;

/// An answer with its contents as sequences.
pub type AnswerView = Result<Seq<IpAddr>, Seq<char>>;

/// The view of an answer.
pub open spec fn answer_view(a: Answer) -> AnswerView {
    match a {
        Ok(v) => Ok(v@),
        Err(e) => Err(e@),
    }
}

/// The views of a list of answers.
pub open spec fn answer_views(a: Seq<Answer>) -> Seq<AnswerView> {
    a.map_values(|x: Answer| answer_view(x))
}

/// The addresses of a list, each once, in the order of their first occurrence.
pub open spec fn distinct(v: Seq<IpAddr>) -> Seq<IpAddr>
    decreases v.len(),
{
    if v.len() == 0 {
        Seq::empty()
    } else {
        let d = distinct(v.drop_last());
        if d.contains(v.last()) {
            d
        } else {
            d.push(v.last())
        }
    }
}

/// The addresses of a host. A literal stands for itself; of any other host they
/// are what the lookup gave.
pub open spec fn resolved(host: Seq<char>, answer: AnswerView) -> Seq<IpAddr> {
    match ip_literal(host) {
        Some(ip) => seq![ip],
        None => match answer {
            Ok(v) => distinct(v),
            Err(_) => Seq::empty(),
        },
    }
}

/// The lines on a host that has no addresses.
pub open spec fn resolve_lines(host: Seq<char>, answer: AnswerView) -> Seq<Seq<char>> {
    if ip_literal(host) is Some {
        Seq::empty()
    } else {
        match answer {
            Ok(v) => if v.len() == 0 {
                seq!["broker: warn \u{2014} '"@ + host + "' resolved to no addresses"@]
            } else {
                Seq::empty()
            },
            Err(e) => seq![
                "broker: warn \u{2014} '"@ + host + "' DNS resolution failed: "@ + e,
            ],
        }
    }
}

fn push_line(lines: &mut Vec<String>, line: String)
    ensures
        texts(final(lines)@) == texts(old(lines)@).push(line@),
{
    lines.push(line);
    assert(texts(lines@) =~= texts(old(lines)@).push(line@));
}

/// Of the addresses that a lookup gives, each is kept, and kept once.
pub proof fn law_distinct_keeps_each_once(v: Seq<IpAddr>)
    ensures
        v.len() > 0 <==> distinct(v).len() > 0,
        forall|x: IpAddr| distinct(v).contains(x) <==> v.contains(x),
        distinct(v).no_duplicates(),
    decreases v.len(),
{
    if v.len() > 0 {
        let init = v.drop_last();
        let d = distinct(init);
        law_distinct_keeps_each_once(init);
        assert forall|x: IpAddr| distinct(v).contains(x) <==> v.contains(x) by {
            assert(v[v.len() - 1] == v.last());
            if init.contains(x) {
                let k = choose|k: int| 0 <= k < init.len() && init[k] == x;
                assert(v[k] == x);
            }
            if v.contains(x) {
                let k = choose|k: int| 0 <= k < v.len() && v[k] == x;
                if k < init.len() {
                    assert(init[k] == x);
                }
            }
            let p = d.push(v.last());
            assert(p[p.len() - 1] == v.last());
            if d.contains(x) {
                let k = choose|k: int| 0 <= k < d.len() && d[k] == x;
                assert(p[k] == x);
            }
            if p.contains(x) {
                let k = choose|k: int| 0 <= k < p.len() && p[k] == x;
                if k < d.len() {
                    assert(d[k] == x);
                }
            }
        }
        assert(v.contains(v.last())) by {
            assert(v[v.len() - 1] == v.last());
        }
        assert(distinct(v).contains(v.last()));
    }
}

/// Of the addresses that a lookup gives, those that come first stay first: where
/// one is kept before another, every occurrence of the other has the one before
/// it.
pub proof fn law_distinct_keeps_the_order(v: Seq<IpAddr>, i: int, j: int, q: int)
    requires
        0 <= i < j < distinct(v).len(),
        0 <= q < v.len(),
        v[q] == distinct(v)[j],
    ensures
        exists|p: int| 0 <= p < q && #[trigger] v[p] == distinct(v)[i],
    decreases v.len(),
{
    let init = v.drop_last();
    let d = distinct(init);
    law_distinct_keeps_each_once(init);
    if j < d.len() {
        assert(distinct(v)[j] == d[j] && distinct(v)[i] == d[i]);
        if q < init.len() {
            law_distinct_keeps_the_order(init, i, j, q);
            let p = choose|p: int| 0 <= p < q && #[trigger] init[p] == d[i];
            assert(v[p] == d[i]);
        } else {
            assert(d.contains(d[i]));
            assert(init.contains(d[i]));
            let p = choose|p: int| 0 <= p < init.len() && init[p] == d[i];
            assert(v[p] == d[i]);
        }
    } else {
        assert(distinct(v)[j] == v.last());
        if q < init.len() {
            assert(init[q] == v.last());
            assert(init.contains(v.last()));
        }
        assert(d.contains(d[i]));
        assert(init.contains(d[i]));
        let p = choose|p: int| 0 <= p < init.len() && init[p] == d[i];
        assert(v[p] == d[i]);
        assert(distinct(v)[i] == d[i]);
    }
}

/// A host is complained of exactly if it has no address: one line if its lookup
/// gave none, one with the error if the lookup failed, none otherwise.
pub proof fn law_host_without_address_is_told(host: Seq<char>, answer: AnswerView)
    ensures
        resolve_lines(host, answer).len() == (if resolved(host, answer).len() == 0 {
            1nat
        } else {
            0
        }),
        resolved(host, answer).len() == 0 && answer is Ok ==> resolve_lines(host, answer)[0]
            == "broker: warn \u{2014} '"@ + host + "' resolved to no addresses"@,
        resolved(host, answer).len() == 0 && answer is Err ==> resolve_lines(host, answer)[0]
            == "broker: warn \u{2014} '"@ + host + "' DNS resolution failed: "@ + answer->Err_0,
{
    match answer {
        Ok(v) => {
            law_distinct_keeps_each_once(v);
        },
        Err(_) => {},
    }
}

fn holds_address(v: &Vec<IpAddr>, ip: IpAddr) -> (r: bool)
    ensures
        r == v@.contains(ip),
{
    let mut i: usize = 0;
    while i < v.len()
        invariant
            i <= v.len(),
            forall|k: int| 0 <= k < i ==> v@[k] != ip,
        decreases v.len() - i,
    {
        if v[i] == ip {
            return true;
        }
        i = i + 1;
    }
    false
}

/// The addresses of a host, given what looking it up gave, which does not
/// matter for a literal. Appends to `lines` why there are none.
pub fn resolve(host: &str, answer: &Answer, lines: &mut Vec<String>) -> (addrs: Vec<IpAddr>)
    ensures
        addrs@ == resolved(host@, answer_view(*answer)),
        texts(final(lines)@) == texts(old(lines)@) + resolve_lines(host@, answer_view(*answer)),
{
    if let Some(ip) = parse_ip(host) {
        let mut one: Vec<IpAddr> = Vec::new();
        one.push(ip);
        assert(texts(lines@) =~= texts(old(lines)@) + Seq::<Seq<char>>::empty());
        assert(one@ =~= seq![ip]);
        return one;
    }
    match answer {
        Ok(found) => {
            let mut seen: Vec<IpAddr> = Vec::new();
            let mut i: usize = 0;
            assert(found@.take(0) =~= Seq::<IpAddr>::empty());
            while i < found.len()
                invariant
                    i <= found.len(),
                    seen@ == distinct(found@.take(i as int)),
                decreases found.len() - i,
            {
                assert(found@.take(i + 1).drop_last() =~= found@.take(i as int));
                if !holds_address(&seen, found[i]) {
                    seen.push(found[i]);
                }
                i = i + 1;
            }
            assert(found@.take(found@.len() as int) =~= found@);
            proof {
                law_distinct_keeps_each_once(found@);
            }
            if seen.len() == 0 {
                let mut line: String = "broker: warn \u{2014} '".to_owned();
                line.append(host);
                line.append("' resolved to no addresses");
                push_line(lines, line);
            }
            assert(texts(lines@) =~= texts(old(lines)@) + resolve_lines(host@, Ok(found@)));
            seen
        },
        Err(e) => {
            let mut line: String = "broker: warn \u{2014} '".to_owned();
            line.append(host);
            line.append("' DNS resolution failed: ");
            line.append(e.as_str());
            assert(line@ =~= resolve_lines(host@, Err(e@))[0]);
            push_line(lines, line);
            assert(texts(lines@) =~= texts(old(lines)@) + resolve_lines(host@, Err(e@)));
            Vec::new()
        },
    }
}

/// The name to look up for a host as a script writes it; none if it is empty
/// or a literal.
pub fn lookup_name(host: &str) -> (name: Option<String>)
    ensures
        name is Some <==> trimmed(host@).len() > 0 && ip_literal(trimmed(host@)) is None,
        name is Some ==> name->0@ == trimmed(host@),
{
    let host: String = trim(host);
    if chars_of(host.as_str()).len() == 0 || parse_ip(host.as_str()).is_some() {
        return None;
    }
    Some(host)
}

/// The rule on one address: any transport, any port.
pub open spec fn address_rule(verb: RuleVerb, ip: IpAddr) -> RuleView {
    RuleView {
        verb,
        transport: Transport::Any,
        address: Some(ip_text(ip)),
        prefix_length: None,
        port: None,
    }
}

/// The addresses of the hosts of a list, each with its answer. Empty entries
/// are passed over.
pub open spec fn addresses(hosts: Seq<Seq<char>>, answers: Seq<AnswerView>) -> Seq<IpAddr>
    decreases hosts.len(),
{
    if hosts.len() == 0 {
        Seq::empty()
    } else {
        let init = addresses(hosts.drop_last(), answers.take(hosts.len() - 1));
        let host = trimmed(hosts.last());
        if host.len() == 0 {
            init
        } else {
            init + resolved(host, answers[hosts.len() - 1])
        }
    }
}

/// The lines on the hosts of a list.
pub open spec fn hosts_lines(hosts: Seq<Seq<char>>, answers: Seq<AnswerView>) -> Seq<Seq<char>>
    decreases hosts.len(),
{
    if hosts.len() == 0 {
        Seq::empty()
    } else {
        let init = hosts_lines(hosts.drop_last(), answers.take(hosts.len() - 1));
        let host = trimmed(hosts.last());
        if host.len() == 0 {
            init
        } else {
            init + resolve_lines(host, answers[hosts.len() - 1])
        }
    }
}

/// The rules on the addresses of a list.
pub open spec fn address_rules(verb: RuleVerb, ips: Seq<IpAddr>) -> Seq<RuleView> {
    ips.map_values(|ip: IpAddr| address_rule(verb, ip))
}

/// Whether an entry of a list of hosts, as a script writes it, has an address: it
/// is not blank, and it is the literal of the address, or no literal, and its
/// lookup gave the address.
pub open spec fn host_has(host: Seq<char>, answer: AnswerView, ip: IpAddr) -> bool {
    trimmed(host).len() > 0 && (ip_literal(trimmed(host)) == Some(ip) || (ip_literal(
        trimmed(host),
    ) is None && answer is Ok && answer->Ok_0.contains(ip)))
}

/// The addresses of a list of hosts are those that an entry of it has: the one
/// that it is the literal of, or each of those that its lookup gave. No entry
/// loses an address to another, wherever it stands.
pub proof fn law_addresses_are_those_of_the_hosts(
    hosts: Seq<Seq<char>>,
    answers: Seq<AnswerView>,
    ip: IpAddr,
)
    requires
        hosts.len() == answers.len(),
    ensures
        addresses(hosts, answers).contains(ip) <==> exists|i: int|
            0 <= i < hosts.len() && #[trigger] host_has(hosts[i], answers[i], ip),
    decreases hosts.len(),
{
    if hosts.len() > 0 {
        let n = hosts.len() - 1;
        let h = hosts.drop_last();
        let a = answers.take(n);
        law_addresses_are_those_of_the_hosts(h, a, ip);
        lemma_last_host(hosts, answers, ip);
        if addresses(h, a).contains(ip) {
            let i = choose|i: int| 0 <= i < h.len() && #[trigger] host_has(h[i], a[i], ip);
            assert(host_has(hosts[i], answers[i], ip));
        }
        if exists|i: int| 0 <= i < hosts.len() && #[trigger] host_has(hosts[i], answers[i], ip) {
            let i = choose|i: int|
                0 <= i < hosts.len() && #[trigger] host_has(hosts[i], answers[i], ip);
            if i < n {
                assert(host_has(h[i], a[i], ip));
            }
        }
    }
}

proof fn lemma_last_host(hosts: Seq<Seq<char>>, answers: Seq<AnswerView>, ip: IpAddr)
    requires
        hosts.len() == answers.len() > 0,
    ensures
        addresses(hosts, answers).contains(ip) <==> addresses(
            hosts.drop_last(),
            answers.take(hosts.len() - 1),
        ).contains(ip) || host_has(hosts[hosts.len() - 1], answers[hosts.len() - 1], ip),
{
    let n = hosts.len() - 1;
    let init = addresses(hosts.drop_last(), answers.take(n));
    let name = trimmed(hosts.last());
    let found = resolved(name, answers[n]);
    match ip_literal(name) {
        Some(one) => {
            assert(found[0] == one);
        },
        None => match answers[n] {
            Ok(v) => {
                law_distinct_keeps_each_once(v);
            },
            Err(_) => {},
        },
    }
    lemma_contains_append(init, found, ip);
}

proof fn lemma_contains_append(a: Seq<IpAddr>, b: Seq<IpAddr>, x: IpAddr)
    ensures
        (a + b).contains(x) <==> a.contains(x) || b.contains(x),
{
    let s = a + b;
    if a.contains(x) {
        let k = choose|k: int| 0 <= k < a.len() && a[k] == x;
        assert(s[k] == x);
    }
    if b.contains(x) {
        let k = choose|k: int| 0 <= k < b.len() && b[k] == x;
        assert(s[a.len() + k] == x);
    }
    if s.contains(x) {
        let k = choose|k: int| 0 <= k < s.len() && s[k] == x;
        if k < a.len() {
            assert(a[k] == x);
        } else {
            assert(b[k - a.len()] == x);
        }
    }
}

/// The addresses of two lists of hosts, one after the other, are those of the
/// first and then those of the second, and so are the lines: what one host gives
/// does not depend on the others.
pub proof fn law_hosts_do_not_interfere(
    h1: Seq<Seq<char>>,
    a1: Seq<AnswerView>,
    h2: Seq<Seq<char>>,
    a2: Seq<AnswerView>,
)
    requires
        h1.len() == a1.len(),
        h2.len() == a2.len(),
    ensures
        addresses(h1 + h2, a1 + a2) == addresses(h1, a1) + addresses(h2, a2),
        hosts_lines(h1 + h2, a1 + a2) == hosts_lines(h1, a1) + hosts_lines(h2, a2),
    decreases h2.len(),
{
    let h = h1 + h2;
    let a = a1 + a2;
    if h2.len() == 0 {
        assert(h =~= h1 && a =~= a1);
        assert(addresses(h1, a1) + addresses(h2, a2) =~= addresses(h1, a1));
        assert(hosts_lines(h1, a1) + hosts_lines(h2, a2) =~= hosts_lines(h1, a1));
    } else {
        let n = h2.len() - 1;
        law_hosts_do_not_interfere(h1, a1, h2.drop_last(), a2.take(n));
        assert(h.drop_last() =~= h1 + h2.drop_last());
        assert(a.take(h.len() - 1) =~= a1 + a2.take(n));
        assert(h.last() == h2.last());
        assert(a[h.len() - 1] == a2[n]);
        assert(addresses(h, a) =~= addresses(h1, a1) + addresses(h2, a2));
        assert(hosts_lines(h, a) =~= hosts_lines(h1, a1) + hosts_lines(h2, a2));
    }
}

/// What one host of a list gives: nothing if it is blank, itself if it is a
/// literal, else the addresses of its lookup, each once, and a line if there are
/// none.
pub proof fn law_one_host(host: Seq<char>, answer: AnswerView)
    ensures
        ({
            let ips = addresses(seq![host], seq![answer]);
            let lines = hosts_lines(seq![host], seq![answer]);
            let name = trimmed(host);
            &&& ips.no_duplicates()
            &&& name.len() == 0 ==> ips.len() == 0 && lines.len() == 0
            &&& name.len() > 0 && ip_literal(name) is Some ==> ips == seq![ip_literal(name)->0]
                && lines.len() == 0
            &&& name.len() > 0 && ip_literal(name) is None && answer is Ok ==> {
                &&& forall|ip: IpAddr| ips.contains(ip) <==> answer->Ok_0.contains(ip)
                &&& answer->Ok_0.no_duplicates() ==> ips == answer->Ok_0
                &&& lines == (if answer->Ok_0.len() == 0 {
                    seq!["broker: warn \u{2014} '"@ + name + "' resolved to no addresses"@]
                } else {
                    Seq::empty()
                })
            }
            &&& name.len() > 0 && ip_literal(name) is None && answer is Err ==> ips.len() == 0
                && lines == seq![
                "broker: warn \u{2014} '"@ + name + "' DNS resolution failed: "@ + answer->Err_0,
            ]
        }),
{
    let h = seq![host];
    let a = seq![answer];
    assert(h.drop_last() =~= Seq::<Seq<char>>::empty());
    assert(a.take(0) =~= Seq::<AnswerView>::empty());
    reveal_with_fuel(addresses, 2);
    reveal_with_fuel(hosts_lines, 2);
    let name = trimmed(host);
    if name.len() > 0 {
        assert(addresses(h, a) =~= resolved(name, answer));
        assert(hosts_lines(h, a) =~= resolve_lines(name, answer));
        match answer {
            Ok(v) => {
                law_distinct_keeps_each_once(v);
                if v.no_duplicates() {
                    lemma_distinct_of_distinct(v);
                }
            },
            Err(_) => {},
        }
    }
}

proof fn lemma_distinct_of_distinct(v: Seq<IpAddr>)
    requires
        v.no_duplicates(),
    ensures
        distinct(v) == v,
    decreases v.len(),
{
    if v.len() > 0 {
        let init = v.drop_last();
        lemma_distinct_of_distinct(init);
        assert(!init.contains(v.last())) by {
            if init.contains(v.last()) {
                let k = choose|k: int| 0 <= k < init.len() && init[k] == v.last();
                assert(v[k] == v[v.len() - 1]);
            }
        }
        assert(init.push(v.last()) =~= v);
    } else {
        assert(distinct(v) =~= v);
    }
}

/// Appends a rule for every address of every host of a list.
pub fn push_host_rules(
    hosts: &Vec<String>,
    verb: RuleVerb,
    answers: &Vec<Answer>,
    out: &mut Vec<Rule>,
    lines: &mut Vec<String>,
)
    requires
        answers@.len() == hosts@.len(),
    ensures
        rule_views(final(out)@) == rule_views(old(out)@) + address_rules(
            verb,
            addresses(texts(hosts@), answer_views(answers@)),
        ),
        texts(final(lines)@) == texts(old(lines)@) + hosts_lines(
            texts(hosts@),
            answer_views(answers@),
        ),
{
    let ghost h = texts(hosts@);
    let ghost a = answer_views(answers@);
    let ghost rules0 = rule_views(out@);
    let ghost lines0 = texts(lines@);
    let mut i: usize = 0;
    assert(rules0 + address_rules(verb, addresses(h.take(0), a.take(0))) =~= rules0);
    assert(lines0 + hosts_lines(h.take(0), a.take(0)) =~= lines0);
    while i < hosts.len()
        invariant
            i <= hosts.len(),
            answers@.len() == hosts@.len(),
            h == texts(hosts@),
            a == answer_views(answers@),
            rule_views(out@) == rules0 + address_rules(
                verb,
                addresses(h.take(i as int), a.take(i as int)),
            ),
            texts(lines@) == lines0 + hosts_lines(h.take(i as int), a.take(i as int)),
        decreases hosts.len() - i,
    {
        let ghost h1 = h.take(i + 1);
        let ghost a1 = a.take(i + 1);
        let ghost before = addresses(h.take(i as int), a.take(i as int));
        let ghost said = hosts_lines(h.take(i as int), a.take(i as int));
        assert(h1.drop_last() =~= h.take(i as int));
        assert(a1.take(h1.len() - 1) =~= a.take(i as int));
        assert(h1.last() == hosts@[i as int]@);
        assert(a1[h1.len() - 1] == answer_view(answers@[i as int]));
        let host: String = trim(hosts[i].as_str());
        if chars_of(host.as_str()).len() > 0 {
            let addrs: Vec<IpAddr> = resolve(host.as_str(), &answers[i], lines);
            assert(texts(lines@) =~= lines0 + hosts_lines(h1, a1));
            let mut k: usize = 0;
            assert(before + addrs@.take(0) =~= before);
            while k < addrs.len()
                invariant
                    k <= addrs.len(),
                    rule_views(out@) == rules0 + address_rules(
                        verb,
                        before + addrs@.take(k as int),
                    ),
                decreases addrs.len() - k,
            {
                let ghost rules1 = rule_views(out@);
                let rule: Rule = Rule {
                    verb,
                    transport: Transport::Any,
                    address: Some(format_ip(addrs[k])),
                    prefix_length: None,
                    port: None,
                };
                out.push(rule);
                assert(rule@ == address_rule(verb, addrs@[k as int]));
                assert(rule_views(out@) =~= rules1.push(rule@));
                assert(before + addrs@.take(k + 1) =~= (before + addrs@.take(k as int)).push(
                    addrs@[k as int],
                ));
                assert(address_rules(verb, before + addrs@.take(k + 1)) =~= address_rules(
                    verb,
                    before + addrs@.take(k as int),
                ).push(rule@));
                assert(rule_views(out@) =~= rules0 + address_rules(
                    verb,
                    before + addrs@.take(k + 1),
                ));
                k = k + 1;
            }
            assert(addrs@.take(addrs@.len() as int) =~= addrs@);
        }
        i = i + 1;
    }
    assert(h.take(h.len() as int) =~= h);
    assert(a.take(a.len() as int) =~= a);
}

/// Why a session could not be started.
#[derive(Debug)]
pub enum StartFailure {
    /// There is no connection to the service.
    Connect(ClientError),
    /// The service did not add the policy.
    AddPolicy(ClientError),
}

/// What came of the request to remove a policy.
#[derive(Debug)]
pub enum StopOutcome {
    Removed(u32),
    Failed(ClientError),
    NoConnection(ClientError),
}

/// The broker session of a sandbox: the policy that the service installed, and
/// with how many filters.
#[derive(Debug)]
pub struct BrokerSession {
    installed: Option<(PolicyId, u32)>,
}

/// The policy of a session.
pub open spec fn session_policy(installed: Option<(PolicyId, u32)>) -> Option<PolicyId> {
    match installed {
        Some((id, _)) => Some(id),
        None => None,
    }
}

/// The number of filters of a session.
pub open spec fn session_filters(installed: Option<(PolicyId, u32)>) -> u32 {
    match installed {
        Some((_, filters)) => filters,
        None => 0,
    }
}

/// Whether there is anything for the broker to do.
pub open spec fn concerns_broker(policy: ContainerPolicy) -> bool {
    policy.allowed_hosts@.len() > 0 || policy.blocked_hosts@.len() > 0
        || policy.default_network_policy == NetworkPolicy::Block
}

/// What the service is asked to do by default.
pub open spec fn default_of(p: NetworkPolicy) -> DefaultPolicy {
    match p {
        NetworkPolicy::Allow => DefaultPolicy::Allow,
        NetworkPolicy::Block => DefaultPolicy::Block,
    }
}

/// The rules of a policy: first those on the hosts that are blocked, then those
/// on the hosts that are allowed.
pub open spec fn session_rules(blocked: Seq<IpAddr>, allowed: Seq<IpAddr>) -> Seq<RuleView> {
    address_rules(RuleVerb::Block, blocked) + address_rules(RuleVerb::Allow, allowed)
}

/// The service is asked for a policy unless a script asks for nothing: its
/// default allows, and it names no host. So a default that blocks is always
/// asked for, and so is any host, and to name one more never takes a request
/// back.
pub proof fn law_only_an_empty_wish_asks_for_nothing(policy: ContainerPolicy, more: ContainerPolicy)
    ensures
        !concerns_broker(policy) <==> policy.default_network_policy == NetworkPolicy::Allow
            && policy.allowed_hosts@.len() == 0 && policy.blocked_hosts@.len() == 0,
        concerns_broker(policy) && more.allowed_hosts@.len() >= policy.allowed_hosts@.len()
            && more.blocked_hosts@.len() >= policy.blocked_hosts@.len()
            && more.default_network_policy == policy.default_network_policy ==> concerns_broker(
            more,
        ),
{
}

/// The rules of a session: one for each address, first those that block, then
/// those that allow, each on any transport, any port and that address alone.
pub proof fn law_session_rule(blocked: Seq<IpAddr>, allowed: Seq<IpAddr>, i: int)
    requires
        0 <= i < blocked.len() + allowed.len(),
    ensures
        session_rules(blocked, allowed).len() == blocked.len() + allowed.len(),
        ({
            let r = session_rules(blocked, allowed)[i];
            &&& r.verb == (if i < blocked.len() {
                RuleVerb::Block
            } else {
                RuleVerb::Allow
            })
            &&& r.transport == Transport::Any
            &&& r.port is None
            &&& r.prefix_length is None
            &&& r.address is Some
            &&& ip_literal(r.address->0) == Some(
                if i < blocked.len() {
                    blocked[i]
                } else {
                    allowed[i - blocked.len()]
                },
            )
        }),
{
    law_ip_text_reads_back(
        if i < blocked.len() {
            blocked[i]
        } else {
            allowed[i - blocked.len()]
        },
    );
}

/// The line on a request to add a policy.
pub open spec fn request_line(sddl: Seq<char>, default: DefaultPolicy, rules: nat, pid: u32) -> Seq<
    char,
> {
    "broker: AddPolicy ac_sid="@ + sddl + " default="@ + default_debug(default) + " rules="@
        + decimal(rules) + " sandbox_pid="@ + decimal(pid as nat)
}

impl View for BrokerSession {
    type V = Option<(PolicyId, u32)>;

    closed spec fn view(&self) -> Option<(PolicyId, u32)> {
        self.installed
    }
}

impl BrokerSession {
    /// A session without a policy.
    pub fn new() -> (s: BrokerSession)
        ensures
            s@ is None,
    {
        BrokerSession { installed: None }
    }

    /// Whether there is anything for the broker to do.
    pub fn applies_to(policy: &ContainerPolicy) -> (r: bool)
        ensures
            r == concerns_broker(*policy),
            !r <==> policy.default_network_policy == NetworkPolicy::Allow
                && policy.allowed_hosts@.len() == 0 && policy.blocked_hosts@.len() == 0,
    {
        policy.allowed_hosts.len() > 0 || policy.blocked_hosts.len() > 0
            || policy.default_network_policy == NetworkPolicy::Block
    }

    /// The request to send to the service; none if there is nothing for the
    /// broker to do. The answers are what looking up the hosts gave, one for
    /// each.
    pub fn start(
        &self,
        ac_sid_sddl: &str,
        sandbox_pid: u32,
        policy: &ContainerPolicy,
        blocked_answers: &Vec<Answer>,
        allowed_answers: &Vec<Answer>,
        lines: &mut Vec<String>,
    ) -> (r: Option<AddPolicyRequest>)
        requires
            blocked_answers@.len() == policy.blocked_hosts@.len(),
            allowed_answers@.len() == policy.allowed_hosts@.len(),
        ensures
            r is Some <==> concerns_broker(*policy),
            r is None <==> policy.default_network_policy == NetworkPolicy::Allow
                && policy.allowed_hosts@.len() == 0 && policy.blocked_hosts@.len() == 0,
            r is None ==> texts(final(lines)@) == texts(old(lines)@),
            r is Some ==> (r->0.default is Block <==> policy.default_network_policy is Block),
            r is Some ==> ({
                let h_blocked = texts(policy.blocked_hosts@);
                let h_allowed = texts(policy.allowed_hosts@);
                let a_blocked = answer_views(blocked_answers@);
                let a_allowed = answer_views(allowed_answers@);
                let rules = session_rules(
                    addresses(h_blocked, a_blocked),
                    addresses(h_allowed, a_allowed),
                );
                let default = default_of(policy.default_network_policy);
                &&& r->0.ac_sid_sddl@ == ac_sid_sddl@
                &&& r->0.default == default
                &&& rule_views(r->0.rules@) == rules
                &&& r->0.sandbox_pid == sandbox_pid
                &&& texts(final(lines)@) == texts(old(lines)@) + hosts_lines(h_blocked, a_blocked)
                    + hosts_lines(h_allowed, a_allowed) + seq![
                    request_line(ac_sid_sddl@, default, rules.len(), sandbox_pid),
                ]
            }),
    {
        if !Self::applies_to(policy) {
            return None;
        }
        let default: DefaultPolicy = match policy.default_network_policy {
            NetworkPolicy::Block => DefaultPolicy::Block,
            NetworkPolicy::Allow => DefaultPolicy::Allow,
        };
        let mut rules: Vec<Rule> = Vec::new();
        push_host_rules(&policy.blocked_hosts, RuleVerb::Block, blocked_answers, &mut rules, lines);
        push_host_rules(&policy.allowed_hosts, RuleVerb::Allow, allowed_answers, &mut rules, lines);
        assert(rule_views(rules@) =~= session_rules(
            addresses(texts(policy.blocked_hosts@), answer_views(blocked_answers@)),
            addresses(texts(policy.allowed_hosts@), answer_views(allowed_answers@)),
        ));
        assert(rule_views(rules@).len() == rules@.len());
        let mut line: String = "broker: AddPolicy ac_sid=".to_owned();
        line.append(ac_sid_sddl);
        line.append(" default=");
        line.append(default_text(&default));
        line.append(" rules=");
        push_decimal(&mut line, rules.len() as u64);
        line.append(" sandbox_pid=");
        push_decimal(&mut line, sandbox_pid as u64);
        assert(line@ =~= request_line(ac_sid_sddl@, default, rules@.len(), sandbox_pid));
        let ghost said = texts(lines@);
        push_line(lines, line);
        assert(texts(lines@) =~= said + seq![line@]);
        Some(AddPolicyRequest { ac_sid_sddl: ac_sid_sddl.to_owned(), default, rules, sandbox_pid })
    }

    /// Takes what came of the request. A policy that was added is kept until
    /// `stop`.
    pub fn started(
        &mut self,
        result: Result<(PolicyId, u32), StartFailure>,
        lines: &mut Vec<String>,
    ) -> (r: Result<bool, WxcError>)
        ensures
            match result {
                Ok((id, filters)) => {
                    &&& r == Ok::<bool, WxcError>(true)
                    &&& final(self)@ == Some((id, filters))
                    &&& texts(final(lines)@) == texts(old(lines)@).push(
                        "broker: policy_id="@ + uuid_text(id.0) + " filters_installed="@ + decimal(
                            filters as nat,
                        ),
                    )
                },
                Err(StartFailure::Connect(e)) => {
                    &&& r is Err
                    &&& r->Err_0@ == WxcErrorView::Firewall(
                        "broker connect: "@ + client_message(e@),
                    )
                    &&& final(self)@ == old(self)@
                    &&& texts(final(lines)@) == texts(old(lines)@)
                },
                Err(StartFailure::AddPolicy(e)) => {
                    &&& r is Err
                    &&& r->Err_0@ == WxcErrorView::Firewall(
                        "broker AddPolicy: "@ + client_message(e@),
                    )
                    &&& final(self)@ == old(self)@
                    &&& texts(final(lines)@) == texts(old(lines)@)
                },
            },
    {
        match result {
            Ok((id, filters)) => {
                let mut line: String = "broker: policy_id=".to_owned();
                line.append(id.text().as_str());
                line.append(" filters_installed=");
                push_decimal(&mut line, filters as u64);
                push_line(lines, line);
                self.installed = Some((id, filters));
                Ok(true)
            },
            Err(StartFailure::Connect(e)) => {
                let mut m: String = "broker connect: ".to_owned();
                m.append(e.message().as_str());
                Err(WxcError::Firewall(m))
            },
            Err(StartFailure::AddPolicy(e)) => {
                let mut m: String = "broker AddPolicy: ".to_owned();
                m.append(e.message().as_str());
                Err(WxcError::Firewall(m))
            },
        }
    }

    /// Gives up the policy. The result is the policy to have removed, if there
    /// is one; a second call gives none.
    pub fn stop(&mut self) -> (id: Option<PolicyId>)
        ensures
            id == session_policy(old(self)@),
            id is Some <==> old(self)@ is Some,
            id is Some ==> id->0 == (old(self)@->0).0,
            final(self)@ is None,
    {
        let id: Option<PolicyId> = match self.installed {
            Some((id, _)) => Some(id),
            None => None,
        };
        self.installed = None;
        id
    }

    /// How many filters the service installed.
    pub fn filters(&self) -> (n: u32)
        ensures
            n == session_filters(self@),
            n == (if self@ is Some {
                (self@->0).1
            } else {
                0
            }),
    {
        match self.installed {
            Some((_, filters)) => filters,
            None => 0,
        }
    }

    /// Whether a policy is installed.
    pub fn is_active(&self) -> (r: bool)
        ensures
            r == (self@ is Some),
    {
        self.installed.is_some()
    }
}

impl Default for BrokerSession {
    fn default() -> (s: BrokerSession)
        ensures
            s@ is None,
    {
        Self::new()
    }
}

/// The line on what came of the request to remove a policy.
pub open spec fn stop_line(id: PolicyId, outcome: StopOutcome) -> Seq<char> {
    match outcome {
        StopOutcome::Removed(n) => "broker: RemovePolicy policy_id="@ + uuid_text(id.0)
            + " filters_removed="@ + decimal(n as nat),
        StopOutcome::Failed(e) => "broker: RemovePolicy "@ + uuid_text(id.0) + " failed: "@
            + client_message(e@),
        StopOutcome::NoConnection(e) => "broker: RemovePolicy "@ + uuid_text(id.0)
            + " skipped (connect failed: "@ + client_message(e@) + ")"@,
    }
}

/// The line on what came of the request to remove a policy.
pub fn stopped(id: PolicyId, outcome: &StopOutcome) -> (line: String)
    ensures
        line@ == stop_line(id, *outcome),
{
    let mut line: String = "broker: RemovePolicy ".to_owned();
    match outcome {
        StopOutcome::Removed(n) => {
            line = "broker: RemovePolicy policy_id=".to_owned();
            line.append(id.text().as_str());
            line.append(" filters_removed=");
            push_decimal(&mut line, *n as u64);
        },
        StopOutcome::Failed(e) => {
            line.append(id.text().as_str());
            line.append(" failed: ");
            line.append(e.message().as_str());
        },
        StopOutcome::NoConnection(e) => {
            line.append(id.text().as_str());
            line.append(" skipped (connect failed: ");
            line.append(e.message().as_str());
            line.append(")");
        },
    }
    assert(line@ =~= stop_line(id, *outcome));
    line
}

/// A rule on an address is valid and speaks of exactly the connections to that
/// address.
pub proof fn law_address_rule_is_exact(verb: RuleVerb, ip: IpAddr, c: Connection)
    ensures
        rule_defect(address_rule(verb, ip)) is None,
        rule_covers(address_rule(verb, ip), c) <==> c.remote == ip,
{
    law_ip_text_reads_back(ip);
    match (ip, c.remote) {
        (IpAddr::V4(n), IpAddr::V4(a)) => {
            lemma_all_bits(n as nat, 32);
            lemma_all_bits(a as nat, 32);
        },
        (IpAddr::V6(n), IpAddr::V6(a)) => {
            lemma_all_bits(n as nat, 128);
            lemma_all_bits(a as nat, 128);
        },
        _ => {},
    }
}

proof fn lemma_all_bits(n: nat, width: nat)
    ensures
        leading_bits(n, width, width) == n,
{
    vstd::arithmetic::power2::lemma2_to64();
    assert((width - width) as nat == 0);
    vstd::arithmetic::div_mod::lemma_div_basics(n as int);
}

/// All rules that a session asks for are accepted by the service.
pub proof fn law_session_rules_are_valid(blocked: Seq<IpAddr>, allowed: Seq<IpAddr>)
    ensures
        all_valid(session_rules(blocked, allowed)),
{
    let rules = session_rules(blocked, allowed);
    assert forall|i: int| 0 <= i < rules.len() implies rule_defect(#[trigger] rules[i]) is None by {
        let c = Connection { sid: Seq::empty(), remote: IpAddr::V4(0), port: 0, protocol: 0 };
        if i < blocked.len() {
            law_address_rule_is_exact(RuleVerb::Block, blocked[i], c);
        } else {
            law_address_rule_is_exact(RuleVerb::Allow, allowed[i - blocked.len()], c);
        }
    }
}

/// What the filters of a session do: connections to a blocked host are
/// blocked, even if the host is allowed as well; those to an allowed host are
/// permitted; for the rest the default of the script decides, and a default
/// that allows leaves them alone.
pub proof fn law_session_decides(
    id: PolicyId,
    sid: Seq<u8>,
    default: NetworkPolicy,
    blocked: Seq<IpAddr>,
    allowed: Seq<IpAddr>,
    c: Connection,
)
    requires
        c.sid == sid,
    ensures
        verdict(plan(id, sid, default_of(default), session_rules(blocked, allowed)), c) == (
        if blocked.contains(c.remote) {
            Some(FilterAction::Block)
        } else if allowed.contains(c.remote) {
            Some(FilterAction::Permit)
        } else {
            match default {
                NetworkPolicy::Block => Some(FilterAction::Block),
                NetworkPolicy::Allow => None,
            }
        }),
{
    let rules = session_rules(blocked, allowed);
    law_session_rules_are_valid(blocked, allowed);
    law_filters_decide_as_policy(id, sid, default_of(default), rules, c);
    assert(some_rule_covers(rules, RuleVerb::Block, c) <==> blocked.contains(c.remote)) by {
        if blocked.contains(c.remote) {
            let k = choose|k: int| 0 <= k < blocked.len() && blocked[k] == c.remote;
            law_address_rule_is_exact(RuleVerb::Block, blocked[k], c);
            assert(rules[k] == address_rule(RuleVerb::Block, blocked[k]));
            assert(rules[k].verb == RuleVerb::Block);
        }
        if some_rule_covers(rules, RuleVerb::Block, c) {
            let i = choose|i: int|
                0 <= i < rules.len() && #[trigger] rules[i].verb == RuleVerb::Block && rule_covers(
                    rules[i],
                    c,
                );
            assert(i < blocked.len());
            law_address_rule_is_exact(RuleVerb::Block, blocked[i], c);
        }
    }
    assert(some_rule_covers(rules, RuleVerb::Allow, c) <==> allowed.contains(c.remote)) by {
        if allowed.contains(c.remote) {
            let k = choose|k: int| 0 <= k < allowed.len() && allowed[k] == c.remote;
            law_address_rule_is_exact(RuleVerb::Allow, allowed[k], c);
            assert(rules[blocked.len() + k] == address_rule(RuleVerb::Allow, allowed[k]));
            assert(rules[blocked.len() + k].verb == RuleVerb::Allow);
        }
        if some_rule_covers(rules, RuleVerb::Allow, c) {
            let i = choose|i: int|
                0 <= i < rules.len() && #[trigger] rules[i].verb == RuleVerb::Allow && rule_covers(
                    rules[i],
                    c,
                );
            assert(i >= blocked.len());
            law_address_rule_is_exact(RuleVerb::Allow, allowed[i - blocked.len()], c);
        }
    }
}

/// What the filters of a session do, from the hosts of the script: a connection
/// to any address of a blocked host is blocked, one to any address of an allowed
/// host that is not blocked is permitted, and of the rest the default decides.
pub proof fn law_session_decides_by_host(
    id: PolicyId,
    sid: Seq<u8>,
    default: NetworkPolicy,
    blocked: Seq<Seq<char>>,
    blocked_answers: Seq<AnswerView>,
    allowed: Seq<Seq<char>>,
    allowed_answers: Seq<AnswerView>,
    c: Connection,
)
    requires
        c.sid == sid,
        blocked.len() == blocked_answers.len(),
        allowed.len() == allowed_answers.len(),
    ensures
        verdict(
            plan(
                id,
                sid,
                default_of(default),
                session_rules(
                    addresses(blocked, blocked_answers),
                    addresses(allowed, allowed_answers),
                ),
            ),
            c,
        ) == (if exists|i: int|
            0 <= i < blocked.len() && #[trigger] host_has(blocked[i], blocked_answers[i], c.remote) {
            Some(FilterAction::Block)
        } else if exists|i: int|
            0 <= i < allowed.len() && #[trigger] host_has(allowed[i], allowed_answers[i], c.remote) {
            Some(FilterAction::Permit)
        } else if default == NetworkPolicy::Block {
            Some(FilterAction::Block)
        } else {
            None
        }),
{
    let b = addresses(blocked, blocked_answers);
    let a = addresses(allowed, allowed_answers);
    law_addresses_are_those_of_the_hosts(blocked, blocked_answers, c.remote);
    law_addresses_are_those_of_the_hosts(allowed, allowed_answers, c.remote);
    law_session_decides(id, sid, default, b, a, c);
}

/// The default of a script is the default that the service is asked for, and
/// nothing else decides it.
pub proof fn law_default_is_passed_on(p: NetworkPolicy)
    ensures
        default_of(p) is Block <==> p is Block,
        default_of(p) is Allow <==> p is Allow,
{
}

/// The rules on addresses are one for each, in their order, of the verb that was
/// asked for, on that address alone.
pub proof fn law_address_rules(verb: RuleVerb, ips: Seq<IpAddr>, i: int)
    requires
        0 <= i < ips.len(),
    ensures
        address_rules(verb, ips).len() == ips.len(),
        address_rules(verb, ips)[i].verb == verb,
        address_rules(verb, ips)[i].transport is Any,
        address_rules(verb, ips)[i].prefix_length is None,
        address_rules(verb, ips)[i].port is None,
        address_rules(verb, ips)[i].address is Some,
        ip_literal(address_rules(verb, ips)[i].address->0) == Some(ips[i]),
        address_rules(verb, ips)[i].address == Some(ip_text(ips[i])),
{
    law_ip_text_reads_back(ips[i]);
}

/// The lines on a session tell what is asked for and what came of it: texts as
/// they are, numbers in decimal.
pub proof fn law_session_lines(
    sddl: Seq<char>,
    default: DefaultPolicy,
    rules: nat,
    pid: u32,
    id: PolicyId,
    n: u32,
    e: ClientError,
)
    ensures
        request_line(sddl, default, rules, pid) == "broker: AddPolicy ac_sid="@ + sddl
            + " default="@ + default_debug(default) + " rules="@ + decimal(rules)
            + " sandbox_pid="@ + decimal(pid as nat),
        stop_line(id, StopOutcome::Removed(n)) == "broker: RemovePolicy policy_id="@ + uuid_text(
            id.0,
        ) + " filters_removed="@ + decimal(n as nat),
        stop_line(id, StopOutcome::Failed(e)) == "broker: RemovePolicy "@ + uuid_text(id.0)
            + " failed: "@ + client_message(e@),
        stop_line(id, StopOutcome::NoConnection(e)) == "broker: RemovePolicy "@ + uuid_text(id.0)
            + " skipped (connect failed: "@ + client_message(e@) + ")"@,
{
}

/// The views of answers are those of each, in their order: the addresses that a
/// lookup gave, or its error.
pub proof fn law_answer_views(a: Seq<Answer>, i: int)
    requires
        0 <= i < a.len(),
    ensures
        answer_views(a).len() == a.len(),
        a[i] is Ok ==> answer_views(a)[i] == AnswerView::Ok(a[i]->Ok_0@),
        a[i] is Err ==> answer_views(a)[i] == AnswerView::Err(a[i]->Err_0@),
{
}

} // verus!
