//! The client of the service: what a failed connection means, and what the
//! replies to its requests mean.

use crate::debug::response_debug;
use crate::proto::{
    error_message, AddPolicyRequest, DefaultPolicy, ErrorView, GetVersionResponse, PolicyId,
    RemovePolicyRequest, Request, Response, ResponseView, Rule, ServiceError,
};
use crate::text::{decimal, push_decimal};
use vstd::prelude::*;

verus! {

/// The name of the service.
pub const SERVICE_NAME: &'static str = "mxc-service";

/// What can go wrong for a client.
#[derive(Debug)]
pub enum ClientError {
    ServiceNotInstalled { raw: String },
    ServiceNotRunning { state: u32, raw: String },
    Lrpc(String),
    Service(ServiceError),
    Unexpected(String),
}

/// A client error with its texts as sequences of characters.
pub enum ClientErrorView {
    ServiceNotInstalled { raw: Seq<char> },
    ServiceNotRunning { state: u32, raw: Seq<char> },
    Lrpc(Seq<char>),
    Service(ErrorView),
    Unexpected(Seq<char>),
}

impl View for ClientError {
    type V = ClientErrorView;

    open spec fn view(&self) -> ClientErrorView {
        match *self {
            ClientError::ServiceNotInstalled { raw } => ClientErrorView::ServiceNotInstalled {
                raw: raw@,
            },
            ClientError::ServiceNotRunning { state, raw } => ClientErrorView::ServiceNotRunning {
                state,
                raw: raw@,
            },
            ClientError::Lrpc(s) => ClientErrorView::Lrpc(s@),
            ClientError::Service(e) => ClientErrorView::Service(e@),
            ClientError::Unexpected(s) => ClientErrorView::Unexpected(s@),
        }
    }
}

/// The message of a client error.
pub open spec fn client_message(e: ClientErrorView) -> Seq<char> {
    match e {
        ClientErrorView::ServiceNotInstalled { raw } =>
            "mxc-service is not installed on this machine (and the LRPC endpoint was unreachable: "@
            + raw
            + "). The MXC SDK requires the `mxc-service` Windows service to enforce per-host network policy. Ask the application that bundles MXC (or your IT admin) to install the MXC runtime MSI."@,
        ClientErrorView::ServiceNotRunning { state, raw } =>
            "mxc-service is installed but not running (state="@ + decimal(state as nat)
            + ", lrpc: "@ + raw
            + "). Start it with `sc start mxc-service` or via Services.msc."@,
        ClientErrorView::Lrpc(s) => "lrpc: "@ + s,
        ClientErrorView::Service(e) => "service returned error: "@ + error_message(e),
        ClientErrorView::Unexpected(s) => "unexpected response variant: "@ + s,
    }
}

impl ClientError {
    /// The message of the error.
    pub fn message(&self) -> (m: String)
        ensures
            m@ == client_message(self@),
    {
        let mut m: String = String::new();
        match self {
            ClientError::ServiceNotInstalled { raw } => {
                m.append(
                    "mxc-service is not installed on this machine (and the LRPC endpoint was unreachable: ",
                );
                m.append(raw.as_str());
                m.append(
                    "). The MXC SDK requires the `mxc-service` Windows service to enforce per-host network policy. Ask the application that bundles MXC (or your IT admin) to install the MXC runtime MSI.",
                );
            },
            ClientError::ServiceNotRunning { state, raw } => {
                m.append("mxc-service is installed but not running (state=");
                push_decimal(&mut m, *state as u64);
                m.append(", lrpc: ");
                m.append(raw.as_str());
                m.append("). Start it with `sc start mxc-service` or via Services.msc.");
            },
            ClientError::Lrpc(s) => {
                m.append("lrpc: ");
                m.append(s.as_str());
            },
            ClientError::Service(e) => {
                m.append("service returned error: ");
                m.append(e.message().as_str());
            },
            ClientError::Unexpected(s) => {
                m.append("unexpected response variant: ");
                m.append(s.as_str());
            },
        }
        assert(m@ =~= client_message(self@));
        m
    }
}

/// Whether the service is installed, and its state.
#[derive(Debug, Clone, Copy, PartialEq, Eq, Structural)]
pub enum ServiceInstallStatus {
    NotInstalled,
    Stopped,
    StartPending,
    Running,
    Other(u32),
}

/// What asking the service control manager gave.
#[derive(Debug, Clone, Copy, PartialEq, Eq, Structural)]
pub enum ScmProbe {
    /// The manager could not be opened.
    NoManager,
    /// The manager does not know the service.
    NoService,
    /// The service gave no status.
    NoStatus,
    /// The state of the service.
    State(u32),
}

/// The service does not run.
pub const SERVICE_STOPPED: u32 = 1;

/// The service is starting.
pub const SERVICE_START_PENDING: u32 = 2;

/// The service runs.
pub const SERVICE_RUNNING: u32 = 4;

/// The status that the answer of the service control manager stands for.
pub open spec fn install_status(probe: ScmProbe) -> ServiceInstallStatus {
    match probe {
        ScmProbe::NoManager => ServiceInstallStatus::NotInstalled,
        ScmProbe::NoService => ServiceInstallStatus::NotInstalled,
        ScmProbe::NoStatus => ServiceInstallStatus::Other(0),
        ScmProbe::State(s) => if s == SERVICE_RUNNING {
            ServiceInstallStatus::Running
        } else if s == SERVICE_START_PENDING {
            ServiceInstallStatus::StartPending
        } else if s == SERVICE_STOPPED {
            ServiceInstallStatus::Stopped
        } else {
            ServiceInstallStatus::Other(s)
        },
    }
}

/// Whether the service is installed, and its state.
pub fn service_install_status(probe: ScmProbe) -> (s: ServiceInstallStatus)
    ensures
        s == install_status(probe),
        s is NotInstalled <==> probe is NoManager || probe is NoService,
        s is Stopped <==> probe == ScmProbe::State(1),
        s is StartPending <==> probe == ScmProbe::State(2),
        s is Running <==> probe == ScmProbe::State(4),
        probe is NoStatus ==> s == ServiceInstallStatus::Other(0),
        probe is State && s is Other ==> probe == ScmProbe::State(s->Other_0),
{
    match probe {
        ScmProbe::NoManager => ServiceInstallStatus::NotInstalled,
        ScmProbe::NoService => ServiceInstallStatus::NotInstalled,
        ScmProbe::NoStatus => ServiceInstallStatus::Other(0),
        ScmProbe::State(s) => if s == SERVICE_RUNNING {
            ServiceInstallStatus::Running
        } else if s == SERVICE_START_PENDING {
            ServiceInstallStatus::StartPending
        } else if s == SERVICE_STOPPED {
            ServiceInstallStatus::Stopped
        } else {
            ServiceInstallStatus::Other(s)
        },
    }
}

/// What a failed connection means, given the state of the service.
pub open spec fn connect_error(raw: Seq<char>, status: ServiceInstallStatus) -> ClientErrorView {
    match status {
        ServiceInstallStatus::NotInstalled => ClientErrorView::ServiceNotInstalled { raw },
        ServiceInstallStatus::Stopped => ClientErrorView::ServiceNotRunning { state: 1, raw },
        ServiceInstallStatus::StartPending => ClientErrorView::ServiceNotRunning { state: 2, raw },
        ServiceInstallStatus::Other(state) => ClientErrorView::ServiceNotRunning { state, raw },
        ServiceInstallStatus::Running => ClientErrorView::Lrpc(raw),
    }
}

/// The error for a failed connection, given the state of the service.
pub fn classify_connect_failure(raw: String, status: ServiceInstallStatus) -> (e: ClientError)
    ensures
        e@ == connect_error(raw@, status),
        e is ServiceNotInstalled <==> status is NotInstalled,
        e is Lrpc <==> status is Running,
        e is ServiceNotRunning <==> status is Stopped || status is StartPending || status is Other,
{
    match status {
        ServiceInstallStatus::NotInstalled => ClientError::ServiceNotInstalled { raw },
        ServiceInstallStatus::Stopped => ClientError::ServiceNotRunning { state: 1, raw },
        ServiceInstallStatus::StartPending => ClientError::ServiceNotRunning { state: 2, raw },
        ServiceInstallStatus::Other(state) => ClientError::ServiceNotRunning { state, raw },
        ServiceInstallStatus::Running => ClientError::Lrpc(raw),
    }
}

/// A connection that failed, and what asking for the service then gave.
#[derive(Debug)]
pub struct ConnectFailure {
    pub raw: String,
    pub probe: ScmProbe,
}

/// A connection to the service, by its binding.
#[derive(Debug)]
pub struct Client {
    pub binding: u64,
}

impl Client {
    /// The client on a connection, or what its failure means.
    pub fn connect(attempt: Result<u64, ConnectFailure>) -> (r: Result<Client, ClientError>)
        ensures
            r is Ok <==> attempt is Ok,
            r is Ok ==> r->Ok_0.binding == attempt->Ok_0,
            r is Err ==> r->Err_0@ == connect_error(
                attempt->Err_0.raw@,
                install_status(attempt->Err_0.probe),
            ),
    {
        match attempt {
            Ok(binding) => Ok(Client { binding }),
            Err(f) => Err(classify_connect_failure(f.raw, service_install_status(f.probe))),
        }
    }

    /// As `connect`. A connection is made at once or not at all, so that the
    /// time limit is not used.
    pub fn connect_with_timeout(
        _timeout_ms: u64,
        attempt: Result<u64, ConnectFailure>,
    ) -> (r: Result<Client, ClientError>)
        ensures
            r is Ok <==> attempt is Ok,
            r is Ok ==> r->Ok_0.binding == attempt->Ok_0,
            r is Err ==> r->Err_0@ == connect_error(
                attempt->Err_0.raw@,
                install_status(attempt->Err_0.probe),
            ),
    {
        Self::connect(attempt)
    }

    /// The version of the service, from the reply to `Request::GetVersion`.
    pub fn get_version(self, reply: Result<Response, String>) -> (r: Result<
        GetVersionResponse,
        ClientError,
    >)
        ensures
            r is Ok <==> reply is Ok && reply->Ok_0@ is Version,
            r is Ok ==> reply->Ok_0@ == (ResponseView::Version {
                service_version: r->Ok_0.service_version@,
                ipc_major: r->Ok_0.ipc_major,
                ipc_minor: r->Ok_0.ipc_minor,
            }),
            r is Err ==> r->Err_0@ == reply_error(reply_view(reply)),
            reply is Err ==> r is Err && r->Err_0@ == ClientErrorView::Lrpc(reply->Err_0@),
            reply is Ok && reply->Ok_0 is Error ==> r is Err && r->Err_0@
                == ClientErrorView::Service(reply->Ok_0->Error_0@),
    {
        match self.request(reply) {
            Ok(Response::Version(v)) => Ok(v),
            Ok(Response::Error(e)) => Err(ClientError::Service(e)),
            Ok(other) => Err(ClientError::Unexpected(other.debug_text())),
            Err(e) => Err(e),
        }
    }

    /// The request to add a policy.
    pub fn add_policy_request(
        ac_sid_sddl: String,
        default: DefaultPolicy,
        rules: Vec<Rule>,
        sandbox_pid: u32,
    ) -> (r: Request)
        ensures
            r == Request::AddPolicy(AddPolicyRequest { ac_sid_sddl, default, rules, sandbox_pid }),
    {
        Request::AddPolicy(AddPolicyRequest { ac_sid_sddl, default, rules, sandbox_pid })
    }

    /// The policy that was added and the number of its filters, from the reply
    /// to `add_policy_request`.
    pub fn add_policy(self, reply: Result<Response, String>) -> (r: Result<
        (PolicyId, u32),
        ClientError,
    >)
        ensures
            r is Ok <==> reply is Ok && reply->Ok_0@ is AddPolicy,
            r is Ok ==> reply->Ok_0@ == (ResponseView::AddPolicy {
                policy_id: (r->Ok_0).0,
                filters_installed: (r->Ok_0).1,
            }),
            r is Err ==> r->Err_0@ == reply_error(reply_view(reply)),
            reply is Err ==> r is Err && r->Err_0@ == ClientErrorView::Lrpc(reply->Err_0@),
            reply is Ok && reply->Ok_0 is Error ==> r is Err && r->Err_0@
                == ClientErrorView::Service(reply->Ok_0->Error_0@),
    {
        match self.request(reply) {
            Ok(Response::AddPolicy(a)) => Ok((a.policy_id, a.filters_installed)),
            Ok(Response::Error(e)) => Err(ClientError::Service(e)),
            Ok(other) => Err(ClientError::Unexpected(other.debug_text())),
            Err(e) => Err(e),
        }
    }

    /// The request to remove a policy.
    pub fn remove_policy_request(policy_id: PolicyId) -> (r: Request)
        ensures
            r == Request::RemovePolicy(RemovePolicyRequest { policy_id }),
    {
        Request::RemovePolicy(RemovePolicyRequest { policy_id })
    }

    /// The number of filters that were removed, from the reply to
    /// `remove_policy_request`.
    pub fn remove_policy(self, reply: Result<Response, String>) -> (r: Result<u32, ClientError>)
        ensures
            r is Ok <==> reply is Ok && reply->Ok_0@ is RemovePolicy,
            r is Ok ==> reply->Ok_0@ == (ResponseView::RemovePolicy { filters_removed: r->Ok_0 }),
            r is Err ==> r->Err_0@ == reply_error(reply_view(reply)),
            reply is Err ==> r is Err && r->Err_0@ == ClientErrorView::Lrpc(reply->Err_0@),
            reply is Ok && reply->Ok_0 is Error ==> r is Err && r->Err_0@
                == ClientErrorView::Service(reply->Ok_0->Error_0@),
    {
        match self.request(reply) {
            Ok(Response::RemovePolicy(d)) => Ok(d.filters_removed),
            Ok(Response::Error(e)) => Err(ClientError::Service(e)),
            Ok(other) => Err(ClientError::Unexpected(other.debug_text())),
            Err(e) => Err(e),
        }
    }

    /// A reply, or the error for a call that failed.
    fn request(&self, reply: Result<Response, String>) -> (r: Result<Response, ClientError>)
        ensures
            reply is Ok ==> r == Ok::<Response, ClientError>(reply->Ok_0),
            reply is Err ==> r is Err && r->Err_0@ == ClientErrorView::Lrpc(reply->Err_0@),
    {
        match reply {
            Ok(response) => Ok(response),
            Err(e) => Err(ClientError::Lrpc(e)),
        }
    }
}

/// What a call gave, with its texts as sequences of characters.
pub open spec fn reply_view(reply: Result<Response, String>) -> Result<ResponseView, Seq<char>> {
    match reply {
        Ok(r) => Ok(r@),
        Err(e) => Err(e@),
    }
}

/// The error for a call that did not give what was asked for: the call failed,
/// the service reported an error, or the reply belongs to another request.
pub open spec fn reply_error(reply: Result<ResponseView, Seq<char>>) -> ClientErrorView {
    match reply {
        Err(e) => ClientErrorView::Lrpc(e),
        Ok(ResponseView::Error(e)) => ClientErrorView::Service(e),
        Ok(other) => ClientErrorView::Unexpected(response_debug(other)),
    }
}

/// Every state of the service but a running one turns a failed connection into
/// advice on the service, and the failure itself is never lost.
pub proof fn law_connect_error_keeps_the_cause(raw: Seq<char>, probe: ScmProbe)
    ensures
        match connect_error(raw, install_status(probe)) {
            ClientErrorView::ServiceNotInstalled { raw: r } => r == raw && (probe
                == ScmProbe::NoManager || probe == ScmProbe::NoService),
            ClientErrorView::ServiceNotRunning { state, raw: r } => r == raw && (probe
                == ScmProbe::State(state) || (probe == ScmProbe::NoStatus && state == 0)),
            ClientErrorView::Lrpc(r) => r == raw && probe == ScmProbe::State(SERVICE_RUNNING),
            _ => false,
        },
{
}

/// A failed connection is told by what the service control manager says: no
/// service at all, a service in some state, or, where the service runs (state
/// 4), the failure alone.
pub proof fn law_failed_connection(raw: Seq<char>, state: u32)
    ensures
        connect_error(raw, install_status(ScmProbe::NoManager)) == (
        ClientErrorView::ServiceNotInstalled { raw }),
        connect_error(raw, install_status(ScmProbe::NoService)) == (
        ClientErrorView::ServiceNotInstalled { raw }),
        connect_error(raw, install_status(ScmProbe::NoStatus)) == (
        ClientErrorView::ServiceNotRunning { state: 0, raw }),
        connect_error(raw, install_status(ScmProbe::State(4))) == ClientErrorView::Lrpc(raw),
        state != 4 ==> connect_error(raw, install_status(ScmProbe::State(state))) == (
        ClientErrorView::ServiceNotRunning { state, raw }),
{
}

/// What a client makes of a reply that is not the one it asked for: a failed
/// call and an error of the service are passed on as they are, and any other
/// reply is told by its text.
pub proof fn law_reply_error(e: Seq<char>, s: ErrorView, r: ResponseView)
    ensures
        reply_error(Err(e)) == ClientErrorView::Lrpc(e),
        reply_error(Ok(ResponseView::Error(s))) == ClientErrorView::Service(s),
        !(r is Error) ==> reply_error(Ok(r)) == ClientErrorView::Unexpected(response_debug(r)),
{
}

/// The messages of the errors: what failed stands in them as it is, and the
/// state of the service in decimal.
pub proof fn law_client_messages(raw: Seq<char>, state: u32, e: ErrorView)
    ensures
        client_message(ClientErrorView::Lrpc(raw)) == "lrpc: "@ + raw,
        client_message(ClientErrorView::Unexpected(raw)) == "unexpected response variant: "@ + raw,
        client_message(ClientErrorView::Service(e)) == "service returned error: "@ + error_message(
            e,
        ),
        client_message(ClientErrorView::ServiceNotRunning { state, raw })
            == "mxc-service is installed but not running (state="@ + decimal(state as nat)
            + ", lrpc: "@ + raw + "). Start it with `sc start mxc-service` or via Services.msc."@,
        client_message(ClientErrorView::ServiceNotInstalled { raw })
            == "mxc-service is not installed on this machine (and the LRPC endpoint was unreachable: "@
            + raw
            + "). The MXC SDK requires the `mxc-service` Windows service to enforce per-host network policy. Ask the application that bundles MXC (or your IT admin) to install the MXC runtime MSI."@,
{
}

} // verus!
