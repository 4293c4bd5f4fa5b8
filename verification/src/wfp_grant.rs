//! The least rights of the service on the filtering engine: to open it and to
//! add objects to it, not inherited.

use crate::ace::{
    call_name, AccessMode, AceCall, AceChange, AceEntry, AceEntryView, AceStage, FWPM_ACTRL_ADD,
    FWPM_ACTRL_OPEN, NO_INHERITANCE,
};
use crate::debug::error_debug;
use crate::engine::{win32_err, win32_error};
use crate::proto::ServiceError;
use crate::service_sid::{own_sid, service_sid};
use crate::text::copy_bytes;
use vstd::prelude::*;

verus! {

/// The rights on the engine.
pub const RIGHTS: u32 = FWPM_ACTRL_OPEN | FWPM_ACTRL_ADD;

/// The entry of the service: the rights, inherited by nothing.
pub open spec fn entry_for(mode: AccessMode) -> AceEntryView {
    AceEntryView {
        permissions: RIGHTS,
        mode,
        inheritance: NO_INHERITANCE,
        trustee: service_sid("MXC-SERVICE"@),
    }
}

/// Begins to grant the rights to the service.
pub fn install_grant() -> (c: AceChange)
    ensures
        c.entry@ == entry_for(AccessMode::Grant),
        c.entry.mode is Grant,
        c.entry.permissions == 65,
        c.entry.inheritance == 0,
        c.stage == AceStage::Call(AceCall::EngineOpen),
{
    AceChange::begin(entry(AccessMode::Grant))
}

/// Begins to revoke the rights of the service.
pub fn uninstall_grant() -> (c: AceChange)
    ensures
        c.entry@ == entry_for(AccessMode::Revoke),
        c.entry.mode is Revoke,
        c.entry.permissions == 65,
        c.entry.inheritance == 0,
        c.stage == AceStage::Call(AceCall::EngineOpen),
{
    AceChange::begin(entry(AccessMode::Revoke))
}

/// The entry to merge.
pub fn entry(mode: AccessMode) -> (e: AceEntry)
    ensures
        e@ == entry_for(mode),
        e.permissions == 65,
        e.mode == mode,
        e.inheritance == 0,
        e.trustee@ == service_sid("MXC-SERVICE"@),
{
    proof {
        law_least_rights();
    }
    AceEntry {
        permissions: RIGHTS,
        mode,
        inheritance: NO_INHERITANCE,
        trustee: copy_bytes(own_sid().bytes()),
    }
}

/// The rights are those to open and to add, and no others.
pub proof fn law_least_rights()
    ensures
        RIGHTS == FWPM_ACTRL_OPEN + FWPM_ACTRL_ADD,
{
    assert(64u32 | 1u32 == 65u32) by (bit_vector);
}

/// What came of a change, once it is over.
pub fn outcome(c: &AceChange) -> (r: Option<Result<(), ServiceError>>)
    ensures
        match c.stage {
            AceStage::Done => r == Some(Ok::<(), ServiceError>(())),
            AceStage::Failed(call, rc) => r is Some && r->0 is Err && r->0->Err_0@ == win32_error(
                call_name(call),
                rc,
            ),
            _ => r is None,
        },
{
    match c.stage {
        AceStage::Done => Some(Ok(())),
        AceStage::Failed(call, rc) => Some(Err(win32_err(call.name(), rc))),
        _ => None,
    }
}

/// The warning for a revocation that failed. It does not stop the removal of
/// the service.
pub fn uninstall_warning(c: &AceChange) -> (w: Option<String>)
    ensures
        match c.stage {
            AceStage::Failed(call, rc) => w is Some && w->0@
                == "[mxc_wfp::grant] uninstall warning: "@ + error_debug(
                win32_error(call_name(call), rc),
            ),
            _ => w is None,
        },
{
    match c.stage {
        AceStage::Failed(call, rc) => {
            let mut w: String = "[mxc_wfp::grant] uninstall warning: ".to_owned();
            w.append(win32_err(call.name(), rc).debug_text().as_str());
            Some(w)
        },
        _ => None,
    }
}

/// What came of a revocation, once it is over. However its calls were answered,
/// it succeeds, so that nothing stops the removal of the service.
pub fn uninstall_outcome(c: &AceChange) -> (r: Option<Result<(), ServiceError>>)
    ensures
        match c.stage {
            AceStage::Done => r == Some(Ok::<(), ServiceError>(())),
            AceStage::Failed(_, _) => r == Some(Ok::<(), ServiceError>(())),
            _ => r is None,
        },
{
    match c.stage {
        AceStage::Done => Some(Ok(())),
        AceStage::Failed(_, _) => Some(Ok(())),
        _ => None,
    }
}

/// The entry of the service takes and gives the same rights of the same trustee,
/// and is never inherited.
pub proof fn law_entries(mode: AccessMode)
    ensures
        entry_for(mode).permissions == 65,
        entry_for(mode).inheritance == 0,
        entry_for(mode).mode == mode,
        entry_for(mode).trustee == service_sid("MXC-SERVICE"@),
{
    assert(64u32 | 1u32 == 65u32) by (bit_vector);
}

} // verus!
