//! The contract between clients and the service: requests, responses, errors
//! and the limits on both.

use crate::text::{decimal, hex_fixed, push_decimal, push_hex_fixed};
use vstd::prelude::*;

verus! {

/// The named pipe of the pipe transport.
pub const PIPE_NAME: &'static str = "\\\\.\\pipe\\mxc-service";

/// The version of the interface that the service speaks.
pub const IPC_MAJOR: u16 = 0;

/// The minor part of the version of the interface.
pub const IPC_MINOR: u16 = 1;

/// The version of the service itself.
pub const SERVICE_VERSION: &'static str = "0.7.0";

/// Hard upper bound on the payload of one framed message.
pub const MAX_MESSAGE_BYTES: usize = 0x1_0000;

/// Upper bound on the rules of one `AddPolicy` request.
pub const MAX_RULES_PER_POLICY: usize = 256;

/// The transport protocol that a rule is about.
#[derive(Debug, Clone, Copy, PartialEq, Eq, Structural)]
pub enum Transport {
    Tcp,
    Udp,
    Any,
}

/// Whether a rule lets traffic through or stops it.
#[derive(Debug, Clone, Copy, PartialEq, Eq, Structural)]
pub enum RuleVerb {
    Allow,
    Block,
}

/// One outbound rule of a sandbox.
///
/// `address` is an IPv4 or IPv6 literal, or `None` for any address. With a
/// `prefix_length` it is a network, without one a single host. A `port` of
/// `None` is any port; a `transport` of `Any` is any protocol.
#[derive(Debug, Clone, PartialEq, Eq)]
pub struct Rule {
    pub verb: RuleVerb,
    pub transport: Transport,
    pub address: Option<String>,
    pub prefix_length: Option<u8>,
    pub port: Option<u16>,
}

/// Names the filters that one successful `AddPolicy` installed: the 128 bits of
/// a UUID, first byte in front.
#[derive(Debug, Clone, Copy, PartialEq, Eq, Structural, Hash)]
pub struct PolicyId(pub u128);

/// What happens to traffic that no rule matches.
#[derive(Debug, Clone, Copy, PartialEq, Eq, Structural)]
pub enum DefaultPolicy {
    Allow,
    Block,
}

/// Asks for a policy for one sandbox.
#[derive(Debug, Clone)]
pub struct AddPolicyRequest {
    /// The sandbox's AppContainer SID in its text form (`S-1-15-2-...`).
    pub ac_sid_sddl: String,
    /// What happens to traffic that no rule matches.
    pub default: DefaultPolicy,
    pub rules: Vec<Rule>,
    /// The process whose end ends the policy; zero for none.
    pub sandbox_pid: u32,
}

/// The policy is in force.
#[derive(Debug, Clone)]
pub struct AddPolicyResponse {
    pub policy_id: PolicyId,
    /// How many filters the service installed.
    pub filters_installed: u32,
}

/// Asks for the end of a policy.
#[derive(Debug, Clone)]
pub struct RemovePolicyRequest {
    pub policy_id: PolicyId,
}

/// The policy is no longer in force.
#[derive(Debug, Clone)]
pub struct RemovePolicyResponse {
    /// How many filters were removed; zero if the policy was already gone.
    pub filters_removed: u32,
}

/// The version of the service and of its protocol.
#[derive(Debug, Clone)]
pub struct GetVersionResponse {
    pub service_version: String,
    pub ipc_major: u16,
    pub ipc_minor: u16,
}

/// What a client asks.
#[derive(Debug, Clone)]
pub enum Request {
    GetVersion,
    AddPolicy(AddPolicyRequest),
    RemovePolicy(RemovePolicyRequest),
}

/// What the service answers.
#[derive(Debug, Clone)]
pub enum Response {
    Version(GetVersionResponse),
    AddPolicy(AddPolicyResponse),
    RemovePolicy(RemovePolicyResponse),
    Error(ServiceError),
}

/// The errors that the service reports.
#[derive(Debug, Clone)]
pub enum ServiceError {
    InvalidAcSid(String),
    InvalidRule { index: u32, reason: String },
    TooManyRules { max: u32, got: u32 },
    UnknownPolicy(PolicyId),
    WfpFailure { api: String, hresult: u32, message: String },
    Unauthorized(String),
    Internal(String),
    ResourceExhausted(String),
}

/// A service error with its texts as sequences of characters.
pub enum ErrorView {
    InvalidAcSid(Seq<char>),
    InvalidRule { index: u32, reason: Seq<char> },
    TooManyRules { max: u32, got: u32 },
    UnknownPolicy(PolicyId),
    WfpFailure { api: Seq<char>, hresult: u32, message: Seq<char> },
    Unauthorized(Seq<char>),
    Internal(Seq<char>),
    ResourceExhausted(Seq<char>),
}

impl View for ServiceError {
    type V = ErrorView;

    open spec fn view(&self) -> ErrorView {
        match *self {
            ServiceError::InvalidAcSid(s) => ErrorView::InvalidAcSid(s@),
            ServiceError::InvalidRule { index, reason } => ErrorView::InvalidRule {
                index,
                reason: reason@,
            },
            ServiceError::TooManyRules { max, got } => ErrorView::TooManyRules { max, got },
            ServiceError::UnknownPolicy(id) => ErrorView::UnknownPolicy(id),
            ServiceError::WfpFailure { api, hresult, message } => ErrorView::WfpFailure {
                api: api@,
                hresult,
                message: message@,
            },
            ServiceError::Unauthorized(s) => ErrorView::Unauthorized(s@),
            ServiceError::Internal(s) => ErrorView::Internal(s@),
            ServiceError::ResourceExhausted(s) => ErrorView::ResourceExhausted(s@),
        }
    }
}

/// A response with its texts as sequences of characters.
pub enum ResponseView {
    Version { service_version: Seq<char>, ipc_major: u16, ipc_minor: u16 },
    AddPolicy { policy_id: PolicyId, filters_installed: u32 },
    RemovePolicy { filters_removed: u32 },
    Error(ErrorView),
}

impl View for Response {
    type V = ResponseView;

    open spec fn view(&self) -> ResponseView {
        match *self {
            Response::Version(v) => ResponseView::Version {
                service_version: v.service_version@,
                ipc_major: v.ipc_major,
                ipc_minor: v.ipc_minor,
            },
            Response::AddPolicy(r) => ResponseView::AddPolicy {
                policy_id: r.policy_id,
                filters_installed: r.filters_installed,
            },
            Response::RemovePolicy(r) => ResponseView::RemovePolicy {
                filters_removed: r.filters_removed,
            },
            Response::Error(e) => ResponseView::Error(e@),
        }
    }
}

/// A rule with its address as a sequence of characters.
pub struct RuleView {
    pub verb: RuleVerb,
    pub transport: Transport,
    pub address: Option<Seq<char>>,
    pub prefix_length: Option<u8>,
    pub port: Option<u16>,
}

impl View for Rule {
    type V = RuleView;

    open spec fn view(&self) -> RuleView {
        RuleView {
            verb: self.verb,
            transport: self.transport,
            address: match self.address {
                Some(a) => Some(a@),
                None => None,
            },
            prefix_length: self.prefix_length,
            port: self.port,
        }
    }
}

/// The views of a list of rules.
pub open spec fn rule_views(rules: Seq<Rule>) -> Seq<RuleView> {
    rules.map_values(|r: Rule| r@)
}

/// The version and variant bits of a random UUID.
pub open spec fn is_random_uuid(n: u128) -> bool {
    n / 0x1000_0000_0000_0000_0000 % 16 == 4 && n / 0x4000_0000_0000_0000 % 4 == 2
}

/// The text of a UUID: 32 hexadecimal digits in groups of 8, 4, 4, 4 and 12.
pub open spec fn uuid_text(n: u128) -> Seq<char> {
    let d = hex_fixed(n as nat, 32);
    d.subrange(0, 8) + seq!['-'] + d.subrange(8, 12) + seq!['-'] + d.subrange(12, 16) + seq!['-']
        + d.subrange(16, 20) + seq!['-'] + d.subrange(20, 32)
}

/// `uuid::Uuid::new_v4`, as a number: whatever the random bits are, the version
/// bits say 4 and the variant bits say RFC 9562. Nothing else is known of the
/// result. It panics where the operating system gives no random bits.
#[verifier::external_body]
fn random_uuid() -> (n: u128)
    ensures
        is_random_uuid(n),
{
    uuid::Uuid::new_v4().as_u128()
}

/// `<uuid::Uuid as Display>::fmt` of the UUID with these bits: hyphenated, in
/// lower case.
#[verifier::external_body]
fn uuid_string(n: u128) -> (s: String)
    ensures
        s@ == uuid_text(n),
{
    uuid::Uuid::from_u128(n).to_string()
}

impl PolicyId {
    /// A fresh identifier.
    pub fn new_random() -> (id: PolicyId)
        ensures
            is_random_uuid(id.0),
    {
        PolicyId(random_uuid())
    }

    /// The text of the identifier.
    pub fn text(&self) -> (s: String)
        ensures
            s@ == uuid_text(self.0),
    {
        uuid_string(self.0)
    }
}

/// The message of an error.
pub open spec fn error_message(e: ErrorView) -> Seq<char> {
    match e {
        ErrorView::InvalidAcSid(s) => "invalid AppContainer SID: "@ + s,
        ErrorView::InvalidRule { index, reason } => "invalid rule (rule #"@ + decimal(index as nat)
            + "): "@ + reason,
        ErrorView::TooManyRules { max, got } => "too many rules (max "@ + decimal(max as nat)
            + ", got "@ + decimal(got as nat) + ")"@,
        ErrorView::UnknownPolicy(id) => "unknown policy id: "@ + uuid_text(id.0),
        ErrorView::WfpFailure { api, hresult, message } => "WFP operation failed: "@ + api
            + " -> 0x"@ + hex_fixed(hresult as nat, 8) + " ("@ + message + ")"@,
        ErrorView::Unauthorized(s) => "caller authentication failed: "@ + s,
        ErrorView::Internal(s) => "internal service error: "@ + s,
        ErrorView::ResourceExhausted(s) => "resource exhausted: "@ + s,
    }
}

impl ServiceError {
    /// The message of the error.
    pub fn message(&self) -> (m: String)
        ensures
            m@ == error_message(self@),
    {
        let mut m: String = String::new();
        match self {
            ServiceError::InvalidAcSid(s) => {
                m.append("invalid AppContainer SID: ");
                m.append(s.as_str());
            },
            ServiceError::InvalidRule { index, reason } => {
                m.append("invalid rule (rule #");
                push_decimal(&mut m, *index as u64);
                m.append("): ");
                m.append(reason.as_str());
            },
            ServiceError::TooManyRules { max, got } => {
                m.append("too many rules (max ");
                push_decimal(&mut m, *max as u64);
                m.append(", got ");
                push_decimal(&mut m, *got as u64);
                m.append(")");
            },
            ServiceError::UnknownPolicy(id) => {
                m.append("unknown policy id: ");
                m.append(id.text().as_str());
            },
            ServiceError::WfpFailure { api, hresult, message } => {
                m.append("WFP operation failed: ");
                m.append(api.as_str());
                m.append(" -> 0x");
                push_hex_fixed(&mut m, *hresult, 8);
                m.append(" (");
                m.append(message.as_str());
                m.append(")");
            },
            ServiceError::Unauthorized(s) => {
                m.append("caller authentication failed: ");
                m.append(s.as_str());
            },
            ServiceError::Internal(s) => {
                m.append("internal service error: ");
                m.append(s.as_str());
            },
            ServiceError::ResourceExhausted(s) => {
                m.append("resource exhausted: ");
                m.append(s.as_str());
            },
        }
        assert(m@ == error_message(self@));
        m
    }
}

/// The text of a UUID has 36 characters: hyphens in the places 8, 13, 18 and 23,
/// and without them its 32 hexadecimal digits.
pub proof fn law_uuid_text(n: u128)
    ensures
        uuid_text(n).len() == 36,
        uuid_text(n)[8] == '-',
        uuid_text(n)[13] == '-',
        uuid_text(n)[18] == '-',
        uuid_text(n)[23] == '-',
        uuid_text(n).take(8) + uuid_text(n).subrange(9, 13) + uuid_text(n).subrange(14, 18)
            + uuid_text(n).subrange(19, 23) + uuid_text(n).subrange(24, 36) == hex_fixed(
            n as nat,
            32,
        ),
{
    crate::grammar::law_fixed_width_denotes_the_number(n as nat, 32);
    let t = uuid_text(n);
    assert(t.take(8) + t.subrange(9, 13) + t.subrange(14, 18) + t.subrange(19, 23) + t.subrange(
        24,
        36,
    ) =~= hex_fixed(n as nat, 32));
}

/// The messages of the errors: each names its kind and then holds what the
/// error holds, texts as they are and numbers in decimal, a result code in eight
/// hexadecimal digits.
pub proof fn law_error_messages(
    s: Seq<char>,
    t: Seq<char>,
    i: u32,
    j: u32,
    id: PolicyId,
)
    ensures
        error_message(ErrorView::InvalidAcSid(s)) == "invalid AppContainer SID: "@ + s,
        error_message(ErrorView::InvalidRule { index: i, reason: s }) == "invalid rule (rule #"@
            + decimal(i as nat) + "): "@ + s,
        error_message(ErrorView::TooManyRules { max: i, got: j }) == "too many rules (max "@
            + decimal(i as nat) + ", got "@ + decimal(j as nat) + ")"@,
        error_message(ErrorView::UnknownPolicy(id)) == "unknown policy id: "@ + uuid_text(id.0),
        error_message(ErrorView::WfpFailure { api: s, hresult: i, message: t })
            == "WFP operation failed: "@ + s + " -> 0x"@ + hex_fixed(i as nat, 8) + " ("@ + t
            + ")"@,
        error_message(ErrorView::Unauthorized(s)) == "caller authentication failed: "@ + s,
        error_message(ErrorView::Internal(s)) == "internal service error: "@ + s,
        error_message(ErrorView::ResourceExhausted(s)) == "resource exhausted: "@ + s,
{
}

/// The view of a rule holds all that the rule holds, and those of a list are the
/// views of its rules, in their order.
pub proof fn law_rule_views(rules: Seq<Rule>, i: int)
    requires
        0 <= i < rules.len(),
    ensures
        rule_views(rules).len() == rules.len(),
        rule_views(rules)[i].verb == rules[i].verb,
        rule_views(rules)[i].transport == rules[i].transport,
        rule_views(rules)[i].address is Some <==> rules[i].address is Some,
        rules[i].address is Some ==> rule_views(rules)[i].address->0 == rules[i].address->0@,
        rule_views(rules)[i].prefix_length == rules[i].prefix_length,
        rule_views(rules)[i].port == rules[i].port,
{
}

/// The view of an error is of the variant of the error and holds what the error
/// holds.
pub proof fn law_error_views(e: ServiceError, index: u32, a: String, b: String)
    ensures
        (ServiceError::InvalidRule { index, reason: a })@ == (ErrorView::InvalidRule {
            index,
            reason: a@,
        }),
        (ServiceError::WfpFailure { api: a, hresult: index, message: b })@ == (
        ErrorView::WfpFailure { api: a@, hresult: index, message: b@ }),
        ServiceError::InvalidAcSid(a)@ == ErrorView::InvalidAcSid(a@),
        ServiceError::Unauthorized(a)@ == ErrorView::Unauthorized(a@),
        ServiceError::Internal(a)@ == ErrorView::Internal(a@),
        ServiceError::ResourceExhausted(a)@ == ErrorView::ResourceExhausted(a@),
        e is TooManyRules ==> e@ == (ErrorView::TooManyRules {
            max: e->TooManyRules_max,
            got: e->TooManyRules_got,
        }),
        e is UnknownPolicy ==> e@ == ErrorView::UnknownPolicy(e->UnknownPolicy_0),
{
}

} // verus!
