//! The rights of the service on the filtering engine, as the installer grants
//! and revokes them: the entry is inherited by what the service creates.

use crate::ace::{
    call_name, AccessMode, AceCall, AceChange, AceEntry, AceEntryView, AceStage,
    CONTAINER_INHERIT_ACE, DELETE, FWPM_ACTRL_ADD, FWPM_ACTRL_ADD_LINK, FWPM_ACTRL_ENUM,
    FWPM_ACTRL_OPEN, FWPM_ACTRL_READ, NO_INHERITANCE, OBJECT_INHERIT_ACE,
};
use crate::service_sid::{own_sid, service_sid};
use crate::text::{copy_bytes, decimal, hex_fixed, push_decimal, push_hex_fixed};
use vstd::prelude::*;

verus! {

/// The rights on the engine.
pub const RIGHTS: u32 = FWPM_ACTRL_OPEN | FWPM_ACTRL_ADD | FWPM_ACTRL_ADD_LINK | FWPM_ACTRL_ENUM
    | FWPM_ACTRL_READ;

/// What a failure of `install_grant` is reported under.
pub const INSTALL_CONTEXT: &'static str = "install grant";

/// The entry of the service: the rights and that to delete. What is granted is
/// inherited by containers and objects.
pub open spec fn entry_for(mode: AccessMode) -> AceEntryView {
    AceEntryView {
        permissions: RIGHTS | DELETE,
        mode,
        inheritance: match mode {
            AccessMode::Grant => CONTAINER_INHERIT_ACE | OBJECT_INHERIT_ACE,
            AccessMode::Revoke => NO_INHERITANCE,
        },
        trustee: service_sid("MXC-SERVICE"@),
    }
}

/// Begins to grant the rights to the service.
pub fn install_grant() -> (c: AceChange)
    ensures
        c.entry@ == entry_for(AccessMode::Grant),
        c.entry.mode is Grant,
        c.entry.permissions == 0x1_00e3,
        c.entry.inheritance == 3,
        c.stage == AceStage::Call(AceCall::EngineOpen),
{
    AceChange::begin(entry(AccessMode::Grant))
}

/// Begins to revoke the rights of the service.
pub fn uninstall_grant() -> (c: AceChange)
    ensures
        c.entry@ == entry_for(AccessMode::Revoke),
        c.entry.mode is Revoke,
        c.entry.permissions == 0x1_00e3,
        c.entry.inheritance == 0,
        c.stage == AceStage::Call(AceCall::EngineOpen),
{
    AceChange::begin(entry(AccessMode::Revoke))
}

/// The entry to merge.
pub fn entry(mode: AccessMode) -> (e: AceEntry)
    ensures
        e@ == entry_for(mode),
        e.permissions == 0x1_00e3,
        e.mode == mode,
        e.inheritance == (if mode is Grant {
            3u32
        } else {
            0
        }),
        e.trustee@ == service_sid("MXC-SERVICE"@),
{
    proof {
        law_granted_rights();
        assert((64u32 | 1u32 | 2u32 | 32u32 | 128u32) | 0x1_0000u32 == 0x1_00e3u32) by (bit_vector);
    }
    let inheritance: u32 = match mode {
        AccessMode::Grant => CONTAINER_INHERIT_ACE | OBJECT_INHERIT_ACE,
        AccessMode::Revoke => NO_INHERITANCE,
    };
    AceEntry {
        permissions: RIGHTS | DELETE,
        mode,
        inheritance,
        trustee: copy_bytes(own_sid().bytes()),
    }
}

/// The rights are those to open, add, link, enumerate, read and delete, and
/// no others; what is granted is inherited by both containers and objects.
pub proof fn law_granted_rights()
    ensures
        RIGHTS | DELETE == FWPM_ACTRL_OPEN + FWPM_ACTRL_ADD + FWPM_ACTRL_ADD_LINK + FWPM_ACTRL_ENUM
            + FWPM_ACTRL_READ + DELETE,
        CONTAINER_INHERIT_ACE | OBJECT_INHERIT_ACE == 3,
{
    assert((64u32 | 1u32 | 2u32 | 32u32 | 128u32) | 0x1_0000u32 == 0x1_00e3u32) by (bit_vector);
    assert(2u32 | 1u32 == 3u32) by (bit_vector);
}

/// The text for a call that failed.
pub open spec fn failure(c: AceCall, rc: u32) -> Seq<char> {
    match c {
        AceCall::SetEntriesInAcl => call_name(c) + " failed: Win32 "@ + decimal(rc as nat),
        _ => call_name(c) + " failed: Win32 0x"@ + hex_fixed(rc as nat, 8),
    }
}

fn failure_text(c: AceCall, rc: u32) -> (m: String)
    ensures
        m@ == failure(c, rc),
{
    let mut m: String = c.name().to_owned();
    match c {
        AceCall::SetEntriesInAcl => {
            m.append(" failed: Win32 ");
            push_decimal(&mut m, rc as u64);
        },
        _ => {
            m.append(" failed: Win32 0x");
            push_hex_fixed(&mut m, rc, 8);
        },
    }
    m
}

/// What came of a change, once it is over.
pub fn outcome(c: &AceChange) -> (r: Option<Result<(), String>>)
    ensures
        match c.stage {
            AceStage::Done => r == Some(Ok::<(), String>(())),
            AceStage::Failed(call, rc) => r is Some && r->0 is Err && r->0->Err_0@ == failure(
                call,
                rc,
            ),
            _ => r is None,
        },
{
    match c.stage {
        AceStage::Done => Some(Ok(())),
        AceStage::Failed(call, rc) => Some(Err(failure_text(call, rc))),
        _ => None,
    }
}

/// The warning for a revocation that failed. It does not stop the removal of
/// the service.
pub fn uninstall_warning(c: &AceChange) -> (w: Option<String>)
    ensures
        match c.stage {
            AceStage::Failed(call, rc) => w is Some && w->0@
                == "[grant] uninstall grant warning: "@ + failure(call, rc),
            _ => w is None,
        },
{
    match c.stage {
        AceStage::Failed(call, rc) => {
            let mut w: String = "[grant] uninstall grant warning: ".to_owned();
            w.append(failure_text(call, rc).as_str());
            Some(w)
        },
        _ => None,
    }
}

/// What came of a revocation, once it is over. However its calls were answered,
/// it succeeds, so that nothing stops the removal of the service.
pub fn uninstall_outcome(c: &AceChange) -> (r: Option<Result<(), String>>)
    ensures
        match c.stage {
            AceStage::Done => r == Some(Ok::<(), String>(())),
            AceStage::Failed(_, _) => r == Some(Ok::<(), String>(())),
            _ => r is None,
        },
{
    match c.stage {
        AceStage::Done => Some(Ok(())),
        AceStage::Failed(_, _) => Some(Ok(())),
        _ => None,
    }
}

/// The entry of the service takes and gives the same rights of the same trustee;
/// only what is granted is inherited.
pub proof fn law_entries()
    ensures
        entry_for(AccessMode::Grant).permissions == 0x1_00e3,
        entry_for(AccessMode::Revoke).permissions == 0x1_00e3,
        entry_for(AccessMode::Grant).inheritance == 3,
        entry_for(AccessMode::Revoke).inheritance == 0,
        entry_for(AccessMode::Grant).mode is Grant,
        entry_for(AccessMode::Revoke).mode is Revoke,
        entry_for(AccessMode::Grant).trustee == service_sid("MXC-SERVICE"@),
        entry_for(AccessMode::Revoke).trustee == service_sid("MXC-SERVICE"@),
{
    assert((64u32 | 1u32 | 2u32 | 32u32 | 128u32) | 0x1_0000u32 == 0x1_00e3u32) by (bit_vector);
    assert(2u32 | 1u32 == 3u32) by (bit_vector);
}

/// A call that failed is told by its name and its status: in eight hexadecimal
/// digits, but for the merge, whose status is told in decimal.
pub proof fn law_failure_texts(c: AceCall, rc: u32)
    ensures
        failure(AceCall::SetEntriesInAcl, rc) == "SetEntriesInAclW"@ + " failed: Win32 "@ + decimal(
            rc as nat,
        ),
        !(c is SetEntriesInAcl) ==> failure(c, rc) == call_name(c) + " failed: Win32 0x"@
            + hex_fixed(rc as nat, 8),
{
}

} // verus!
