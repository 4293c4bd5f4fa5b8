//! Sessions with the filtering engine, and the objects that every filter of
//! the service refers to.

use crate::filter::{Guid, MXC_PROVIDER_GUID, MXC_SUBLAYER_GUID, MXC_SUBLAYER_WEIGHT};
use crate::proto::{ErrorView, ServiceError};
use crate::text::{decimal, push_decimal, push_upper_hex_fixed, upper_hex_fixed};
use vstd::prelude::*;

verus! {

/// The error for a failed call of the filtering engine.
pub open spec fn win32_error(api: Seq<char>, rc: u32) -> ErrorView {
    ErrorView::WfpFailure {
        api,
        hresult: rc,
        message: "Win32 error "@ + decimal(rc as nat) + " (0x"@ + upper_hex_fixed(rc as nat, 8)
            + ")"@,
    }
}

/// The error for the call `api` that failed with the status `rc`.
pub fn win32_err(api: &str, rc: u32) -> (e: ServiceError)
    ensures
        e@ == win32_error(api@, rc),
{
    let mut message: String = "Win32 error ".to_owned();
    push_decimal(&mut message, rc as u64);
    message.append(" (0x");
    push_upper_hex_fixed(&mut message, rc, 8);
    message.append(")");
    assert(message@ =~= win32_error(api@, rc)->message);
    ServiceError::WfpFailure { api: api.to_owned(), hresult: rc, message }
}

/// A session with the filtering engine, by its handle.
#[derive(Debug, Clone, Copy, PartialEq, Eq, Structural)]
pub struct Engine {
    handle: u64,
}

/// How long what is added in a session lives.
#[derive(Debug, Clone, Copy, PartialEq, Eq, Structural)]
pub enum SessionKind {
    /// Until the session ends: the service at run time.
    Dynamic,
    /// Beyond the session: granting and revoking rights.
    Persistent,
}

/// The authentication service that the engine asks for.
pub const RPC_C_AUTHN_WINNT: u32 = 10;

/// The flag of a dynamic session.
pub const FWPM_SESSION_FLAG_DYNAMIC: u32 = 1;

/// The status for an object that is there already.
pub const FWP_E_ALREADY_EXISTS: u32 = 0x8032_0009;

/// The properties that a session is opened with.
#[derive(Debug, Clone, Copy)]
pub struct SessionSpec {
    pub name: &'static str,
    pub description: &'static str,
    pub flags: u32,
}

impl SessionKind {
    /// The properties of a session of this kind; a persistent one has none.
    pub fn session(&self) -> (s: Option<SessionSpec>)
        ensures
            s is Some <==> self is Dynamic,
            s is Some ==> s->0.name@ == "mxc-service"@ && s->0.description@
                == "MXC Tier 2 policy session"@ && s->0.flags == FWPM_SESSION_FLAG_DYNAMIC && s->0.flags
                == 1,
    {
        match self {
            SessionKind::Persistent => None,
            SessionKind::Dynamic => Some(
                SessionSpec {
                    name: "mxc-service",
                    description: "MXC Tier 2 policy session",
                    flags: FWPM_SESSION_FLAG_DYNAMIC,
                },
            ),
        }
    }
}

impl Engine {
    /// The handle of the session.
    pub closed spec fn spec_handle(self) -> u64 {
        self.handle
    }

    /// The session that opening the engine gave, with the status `rc`.
    pub fn open(rc: u32, handle: u64) -> (r: Result<Engine, ServiceError>)
        ensures
            r is Ok <==> rc == 0,
            r is Ok ==> r->Ok_0.spec_handle() == handle,
            r is Err ==> r->Err_0@ == win32_error("FwpmEngineOpen0"@, rc),
    {
        if rc != 0 {
            return Err(win32_err("FwpmEngineOpen0", rc));
        }
        Ok(Engine { handle })
    }

    /// The handle of the session.
    pub fn handle(&self) -> (h: u64)
        ensures
            h == self.spec_handle(),
    {
        self.handle
    }
}

/// The provider of the service.
#[derive(Debug, Clone, Copy)]
pub struct ProviderSpec {
    pub key: Guid,
    pub name: &'static str,
    pub description: &'static str,
}

/// The provider that the service registers.
pub fn provider() -> (p: ProviderSpec)
    ensures
        p.key == MXC_PROVIDER_GUID,
        p.key == 0x7a3d1bbe_3f1e_4d7a_9c4e_5a36f51e9b21,
        p.name@ == "MXC Service"@,
        p.description@ == "MXC Tier 2 process-container provider"@,
{
    ProviderSpec {
        key: MXC_PROVIDER_GUID,
        name: "MXC Service",
        description: "MXC Tier 2 process-container provider",
    }
}

/// The sublayer of the service.
#[derive(Debug, Clone, Copy)]
pub struct SublayerSpec {
    pub key: Guid,
    pub name: &'static str,
    pub description: &'static str,
    pub provider: Guid,
    pub weight: u16,
}

/// The sublayer that the service registers.
pub fn sublayer() -> (s: SublayerSpec)
    ensures
        s.key == MXC_SUBLAYER_GUID,
        s.key == 0x7a3d1bbf_3f1e_4d7a_9c4e_5a36f51e9b22,
        s.provider == 0x7a3d1bbe_3f1e_4d7a_9c4e_5a36f51e9b21,
        s.weight == 0x4000,
        s.name@ == "MXC Service Sublayer"@,
        s.description@ == "Per-sandbox MXC outbound policy"@,
        s.provider == MXC_PROVIDER_GUID,
        s.weight == MXC_SUBLAYER_WEIGHT,
{
    SublayerSpec {
        key: MXC_SUBLAYER_GUID,
        name: "MXC Service Sublayer",
        description: "Per-sandbox MXC outbound policy",
        provider: MXC_PROVIDER_GUID,
        weight: MXC_SUBLAYER_WEIGHT,
    }
}

/// The error for a failed call keeps the name of the call and its status, and
/// its text tells the status in decimal and in eight hexadecimal digits.
pub proof fn law_win32_error(api: Seq<char>, rc: u32)
    ensures
        win32_error(api, rc) is WfpFailure,
        win32_error(api, rc)->api == api,
        win32_error(api, rc)->hresult == rc,
        win32_error(api, rc)->WfpFailure_message == "Win32 error "@ + decimal(rc as nat) + " (0x"@
            + upper_hex_fixed(rc as nat, 8) + ")"@,
{
}

} // verus!
