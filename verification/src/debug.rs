//! The texts of values in log and diagnostic lines.

use crate::proto::{
    uuid_text, DefaultPolicy, ErrorView, PolicyId, Response, ResponseView, Rule, RuleVerb,
    RuleView, ServiceError, Transport,
};
use crate::text::{decimal, push_decimal, push_quoted, quoted};
use vstd::prelude::*;

verus! {

/// A verb.
pub open spec fn verb_debug(v: RuleVerb) -> Seq<char> {
    match v {
        RuleVerb::Allow => "Allow"@,
        RuleVerb::Block => "Block"@,
    }
}

/// A transport.
pub open spec fn transport_debug(t: Transport) -> Seq<char> {
    match t {
        Transport::Tcp => "Tcp"@,
        Transport::Udp => "Udp"@,
        Transport::Any => "Any"@,
    }
}

/// A default policy.
pub open spec fn default_debug(d: DefaultPolicy) -> Seq<char> {
    match d {
        DefaultPolicy::Allow => "Allow"@,
        DefaultPolicy::Block => "Block"@,
    }
}

/// An optional number.
pub open spec fn option_debug(o: Option<nat>) -> Seq<char> {
    match o {
        Some(n) => "Some("@ + decimal(n) + ")"@,
        None => "None"@,
    }
}

/// An optional text.
pub open spec fn option_text_debug(o: Option<Seq<char>>) -> Seq<char> {
    match o {
        Some(s) => "Some("@ + quoted(s) + ")"@,
        None => "None"@,
    }
}

/// A rule.
pub open spec fn rule_debug(r: RuleView) -> Seq<char> {
    "Rule { verb: "@ + verb_debug(r.verb) + ", transport: "@ + transport_debug(r.transport)
        + ", address: "@ + option_text_debug(r.address) + ", prefix_length: "@ + option_debug(
        match r.prefix_length {
            Some(p) => Some(p as nat),
            None => None,
        },
    ) + ", port: "@ + option_debug(
        match r.port {
            Some(p) => Some(p as nat),
            None => None,
        },
    ) + " }"@
}

/// The identifier of a policy.
pub open spec fn id_debug(id: PolicyId) -> Seq<char> {
    "PolicyId("@ + uuid_text(id.0) + ")"@
}

/// An error.
pub open spec fn error_debug(e: ErrorView) -> Seq<char> {
    match e {
        ErrorView::InvalidAcSid(s) => "InvalidAcSid("@ + quoted(s) + ")"@,
        ErrorView::InvalidRule { index, reason } => "InvalidRule { index: "@ + decimal(
            index as nat,
        ) + ", reason: "@ + quoted(reason) + " }"@,
        ErrorView::TooManyRules { max, got } => "TooManyRules { max: "@ + decimal(max as nat)
            + ", got: "@ + decimal(got as nat) + " }"@,
        ErrorView::UnknownPolicy(id) => "UnknownPolicy("@ + id_debug(id) + ")"@,
        ErrorView::WfpFailure { api, hresult, message } => "WfpFailure { api: "@ + quoted(api)
            + ", hresult: "@ + decimal(hresult as nat) + ", message: "@ + quoted(message) + " }"@,
        ErrorView::Unauthorized(s) => "Unauthorized("@ + quoted(s) + ")"@,
        ErrorView::Internal(s) => "Internal("@ + quoted(s) + ")"@,
        ErrorView::ResourceExhausted(s) => "ResourceExhausted("@ + quoted(s) + ")"@,
    }
}

/// A response.
pub open spec fn response_debug(r: ResponseView) -> Seq<char> {
    match r {
        ResponseView::Version { service_version, ipc_major, ipc_minor } =>
            "Version(GetVersionResponse { service_version: "@ + quoted(service_version)
            + ", ipc_major: "@ + decimal(ipc_major as nat) + ", ipc_minor: "@ + decimal(
            ipc_minor as nat,
        ) + " })"@,
        ResponseView::AddPolicy { policy_id, filters_installed } =>
            "AddPolicy(AddPolicyResponse { policy_id: "@ + id_debug(policy_id)
            + ", filters_installed: "@ + decimal(filters_installed as nat) + " })"@,
        ResponseView::RemovePolicy { filters_removed } =>
            "RemovePolicy(RemovePolicyResponse { filters_removed: "@ + decimal(
            filters_removed as nat,
        ) + " })"@,
        ResponseView::Error(e) => "Error("@ + error_debug(e) + ")"@,
    }
}

/// The text of a default policy.
pub fn default_text(d: &DefaultPolicy) -> (s: &'static str)
    ensures
        s@ == default_debug(*d),
{
    match d {
        DefaultPolicy::Allow => "Allow",
        DefaultPolicy::Block => "Block",
    }
}

fn push_option(m: &mut String, o: Option<u64>)
    ensures
        final(m)@ == old(m)@ + option_debug(
            match o {
                Some(n) => Some(n as nat),
                None => None,
            },
        ),
{
    match o {
        Some(n) => {
            m.append("Some(");
            push_decimal(m, n);
            m.append(")");
        },
        None => {
            m.append("None");
        },
    }
}

fn push_option_text(m: &mut String, o: Option<&String>)
    ensures
        final(m)@ == old(m)@ + option_text_debug(
            match o {
                Some(s) => Some(s@),
                None => None,
            },
        ),
{
    match o {
        Some(s) => {
            m.append("Some(");
            push_quoted(m, s.as_str());
            m.append(")");
        },
        None => {
            m.append("None");
        },
    }
}

impl Rule {
    /// The rule as it stands in diagnostic lines.
    pub fn debug_text(&self) -> (m: String)
        ensures
            m@ == rule_debug(self@),
    {
        let mut m: String = "Rule { verb: ".to_owned();
        match self.verb {
            RuleVerb::Allow => m.append("Allow"),
            RuleVerb::Block => m.append("Block"),
        }
        m.append(", transport: ");
        match self.transport {
            Transport::Tcp => m.append("Tcp"),
            Transport::Udp => m.append("Udp"),
            Transport::Any => m.append("Any"),
        }
        m.append(", address: ");
        push_option_text(&mut m, self.address.as_ref());
        m.append(", prefix_length: ");
        push_option(
            &mut m,
            match self.prefix_length {
                Some(p) => Some(p as u64),
                None => None,
            },
        );
        m.append(", port: ");
        push_option(
            &mut m,
            match self.port {
                Some(p) => Some(p as u64),
                None => None,
            },
        );
        m.append(" }");
        assert(m@ =~= rule_debug(self@));
        m
    }
}

fn push_id(m: &mut String, id: &PolicyId)
    ensures
        final(m)@ == old(m)@ + id_debug(*id),
{
    m.append("PolicyId(");
    m.append(id.text().as_str());
    m.append(")");
}

impl ServiceError {
    /// The error as it stands in diagnostic lines.
    pub fn debug_text(&self) -> (m: String)
        ensures
            m@ == error_debug(self@),
    {
        let mut m: String = String::new();
        match self {
            ServiceError::InvalidAcSid(s) => {
                m.append("InvalidAcSid(");
                push_quoted(&mut m, s.as_str());
                m.append(")");
            },
            ServiceError::InvalidRule { index, reason } => {
                m.append("InvalidRule { index: ");
                push_decimal(&mut m, *index as u64);
                m.append(", reason: ");
                push_quoted(&mut m, reason.as_str());
                m.append(" }");
            },
            ServiceError::TooManyRules { max, got } => {
                m.append("TooManyRules { max: ");
                push_decimal(&mut m, *max as u64);
                m.append(", got: ");
                push_decimal(&mut m, *got as u64);
                m.append(" }");
            },
            ServiceError::UnknownPolicy(id) => {
                m.append("UnknownPolicy(");
                push_id(&mut m, id);
                m.append(")");
            },
            ServiceError::WfpFailure { api, hresult, message } => {
                m.append("WfpFailure { api: ");
                push_quoted(&mut m, api.as_str());
                m.append(", hresult: ");
                push_decimal(&mut m, *hresult as u64);
                m.append(", message: ");
                push_quoted(&mut m, message.as_str());
                m.append(" }");
            },
            ServiceError::Unauthorized(s) => {
                m.append("Unauthorized(");
                push_quoted(&mut m, s.as_str());
                m.append(")");
            },
            ServiceError::Internal(s) => {
                m.append("Internal(");
                push_quoted(&mut m, s.as_str());
                m.append(")");
            },
            ServiceError::ResourceExhausted(s) => {
                m.append("ResourceExhausted(");
                push_quoted(&mut m, s.as_str());
                m.append(")");
            },
        }
        assert(m@ =~= error_debug(self@));
        m
    }
}

impl Response {
    /// The response as it stands in error texts.
    pub fn debug_text(&self) -> (m: String)
        ensures
            m@ == response_debug(self@),
    {
        let mut m: String = String::new();
        match self {
            Response::Version(v) => {
                m.append("Version(GetVersionResponse { service_version: ");
                push_quoted(&mut m, v.service_version.as_str());
                m.append(", ipc_major: ");
                push_decimal(&mut m, v.ipc_major as u64);
                m.append(", ipc_minor: ");
                push_decimal(&mut m, v.ipc_minor as u64);
                m.append(" })");
            },
            Response::AddPolicy(r) => {
                m.append("AddPolicy(AddPolicyResponse { policy_id: ");
                push_id(&mut m, &r.policy_id);
                m.append(", filters_installed: ");
                push_decimal(&mut m, r.filters_installed as u64);
                m.append(" })");
            },
            Response::RemovePolicy(r) => {
                m.append("RemovePolicy(RemovePolicyResponse { filters_removed: ");
                push_decimal(&mut m, r.filters_removed as u64);
                m.append(" })");
            },
            Response::Error(e) => {
                m.append("Error(");
                m.append(e.debug_text().as_str());
                m.append(")");
            },
        }
        assert(m@ =~= response_debug(self@));
        m
    }
}

/// Values are written by their names, numbers in decimal, texts in quotation
/// marks, and what is optional as such.
pub proof fn law_value_texts(n: nat, s: Seq<char>, id: PolicyId)
    ensures
        verb_debug(RuleVerb::Allow) == "Allow"@,
        verb_debug(RuleVerb::Block) == "Block"@,
        transport_debug(Transport::Tcp) == "Tcp"@,
        transport_debug(Transport::Udp) == "Udp"@,
        transport_debug(Transport::Any) == "Any"@,
        default_debug(DefaultPolicy::Allow) == "Allow"@,
        default_debug(DefaultPolicy::Block) == "Block"@,
        option_debug(Some(n)) == "Some("@ + decimal(n) + ")"@,
        option_debug(None) == "None"@,
        option_text_debug(Some(s)) == "Some("@ + quoted(s) + ")"@,
        option_text_debug(None) == "None"@,
        id_debug(id) == "PolicyId("@ + uuid_text(id.0) + ")"@,
{
}

/// A rule is written with all its members, in their order.
pub proof fn law_rule_text(r: RuleView)
    ensures
        ({
            let prefix = if r.prefix_length is Some {
                "Some("@ + decimal(r.prefix_length->0 as nat) + ")"@
            } else {
                "None"@
            };
            let port = if r.port is Some {
                "Some("@ + decimal(r.port->0 as nat) + ")"@
            } else {
                "None"@
            };
            rule_debug(r) == "Rule { verb: "@ + verb_debug(r.verb) + ", transport: "@
                + transport_debug(r.transport) + ", address: "@ + option_text_debug(r.address)
                + ", prefix_length: "@ + prefix + ", port: "@ + port + " }"@
        }),
{
}

/// An error is written with its name and all its members, in their order.
pub proof fn law_error_texts(s: Seq<char>, t: Seq<char>, i: u32, j: u32, id: PolicyId)
    ensures
        error_debug(ErrorView::InvalidAcSid(s)) == "InvalidAcSid("@ + quoted(s) + ")"@,
        error_debug(ErrorView::InvalidRule { index: i, reason: s }) == "InvalidRule { index: "@
            + decimal(i as nat) + ", reason: "@ + quoted(s) + " }"@,
        error_debug(ErrorView::TooManyRules { max: i, got: j }) == "TooManyRules { max: "@
            + decimal(i as nat) + ", got: "@ + decimal(j as nat) + " }"@,
        error_debug(ErrorView::UnknownPolicy(id)) == "UnknownPolicy("@ + id_debug(id) + ")"@,
        error_debug(ErrorView::WfpFailure { api: s, hresult: i, message: t })
            == "WfpFailure { api: "@ + quoted(s) + ", hresult: "@ + decimal(i as nat)
            + ", message: "@ + quoted(t) + " }"@,
        error_debug(ErrorView::Unauthorized(s)) == "Unauthorized("@ + quoted(s) + ")"@,
        error_debug(ErrorView::Internal(s)) == "Internal("@ + quoted(s) + ")"@,
        error_debug(ErrorView::ResourceExhausted(s)) == "ResourceExhausted("@ + quoted(s) + ")"@,
{
}

/// A response is written with its name and all its members, in their order.
pub proof fn law_response_texts(s: Seq<char>, a: u16, b: u16, n: u32, id: PolicyId, e: ErrorView)
    ensures
        response_debug(
            ResponseView::Version { service_version: s, ipc_major: a, ipc_minor: b },
        ) == "Version(GetVersionResponse { service_version: "@ + quoted(s) + ", ipc_major: "@
            + decimal(a as nat) + ", ipc_minor: "@ + decimal(b as nat) + " })"@,
        response_debug(ResponseView::AddPolicy { policy_id: id, filters_installed: n })
            == "AddPolicy(AddPolicyResponse { policy_id: "@ + id_debug(id)
            + ", filters_installed: "@ + decimal(n as nat) + " })"@,
        response_debug(ResponseView::RemovePolicy { filters_removed: n })
            == "RemovePolicy(RemovePolicyResponse { filters_removed: "@ + decimal(n as nat)
            + " })"@,
        response_debug(ResponseView::Error(e)) == "Error("@ + error_debug(e) + ")"@,
{
}

} // verus!
