//! Changing one entry in the access list of the filtering engine: open the
//! engine, read its access list, merge the entry, write the list back, close the
//! engine.

use crate::engine::SessionKind;
use vstd::prelude::*;

verus! {

/// The right to add an object to the engine.
pub const FWPM_ACTRL_ADD: u32 = 1;

/// The right to add an object that refers to another.
pub const FWPM_ACTRL_ADD_LINK: u32 = 2;

/// The right to list the objects of the engine.
pub const FWPM_ACTRL_ENUM: u32 = 32;

/// The right to open a session.
pub const FWPM_ACTRL_OPEN: u32 = 64;

/// The right to read an object.
pub const FWPM_ACTRL_READ: u32 = 128;

/// The standard right to delete an object.
pub const DELETE: u32 = 0x1_0000;

/// The entry stands for the object alone.
pub const NO_INHERITANCE: u32 = 0;

/// The entry is inherited by the objects inside.
pub const OBJECT_INHERIT_ACE: u32 = 1;

/// The entry is inherited by the containers inside.
pub const CONTAINER_INHERIT_ACE: u32 = 2;

/// Whether rights are given or taken away.
#[derive(Debug, Clone, Copy, PartialEq, Eq, Structural)]
pub enum AccessMode {
    Grant,
    Revoke,
}

/// An entry to merge into an access list: what the trustee with this SID may
/// do.
#[derive(Debug)]
pub struct AceEntry {
    pub permissions: u32,
    pub mode: AccessMode,
    pub inheritance: u32,
    pub trustee: Vec<u8>,
}

/// An entry with the SID as a sequence of bytes.
pub struct AceEntryView {
    pub permissions: u32,
    pub mode: AccessMode,
    pub inheritance: u32,
    pub trustee: Seq<u8>,
}

impl View for AceEntry {
    type V = AceEntryView;

    open spec fn view(&self) -> AceEntryView {
        AceEntryView {
            permissions: self.permissions,
            mode: self.mode,
            inheritance: self.inheritance,
            trustee: self.trustee@,
        }
    }
}

/// The calls of a change, in their order.
#[derive(Debug, Clone, Copy, PartialEq, Eq, Structural)]
pub enum AceCall {
    EngineOpen,
    GetSecurityInfo,
    SetEntriesInAcl,
    SetSecurityInfo,
}

/// Where a change stands.
#[derive(Debug, Clone, Copy, PartialEq, Eq, Structural)]
pub enum AceStage {
    /// This call is due.
    Call(AceCall),
    /// All calls succeeded; close the engine.
    Close,
    /// This call failed, with this status; close the engine.
    CloseFailed(AceCall, u32),
    /// The list is changed.
    Done,
    /// This call failed, with this status.
    Failed(AceCall, u32),
}

/// A change under way: the entry that it merges, and where it stands.
#[derive(Debug)]
pub struct AceChange {
    pub entry: AceEntry,
    pub stage: AceStage,
}

/// The name of a call.
pub open spec fn call_name(c: AceCall) -> Seq<char> {
    match c {
        AceCall::EngineOpen => "FwpmEngineOpen0"@,
        AceCall::GetSecurityInfo => "FwpmEngineGetSecurityInfo0"@,
        AceCall::SetEntriesInAcl => "SetEntriesInAclW"@,
        AceCall::SetSecurityInfo => "FwpmEngineSetSecurityInfo0"@,
    }
}

impl AceCall {
    /// The name of the call.
    pub fn name(&self) -> (s: &'static str)
        ensures
            s@ == call_name(*self),
    {
        match self {
            AceCall::EngineOpen => "FwpmEngineOpen0",
            AceCall::GetSecurityInfo => "FwpmEngineGetSecurityInfo0",
            AceCall::SetEntriesInAcl => "SetEntriesInAclW",
            AceCall::SetSecurityInfo => "FwpmEngineSetSecurityInfo0",
        }
    }
}

/// Where a change stands after a call was answered. After a failure the engine
/// is closed, if it was opened, and nothing else is called. What closing answers
/// does not matter.
pub open spec fn next_stage(s: AceStage, rc: u32) -> AceStage {
    match s {
        AceStage::Call(c) => if rc != 0 {
            if c == AceCall::EngineOpen {
                AceStage::Failed(c, rc)
            } else {
                AceStage::CloseFailed(c, rc)
            }
        } else {
            match c {
                AceCall::EngineOpen => AceStage::Call(AceCall::GetSecurityInfo),
                AceCall::GetSecurityInfo => AceStage::Call(AceCall::SetEntriesInAcl),
                AceCall::SetEntriesInAcl => AceStage::Call(AceCall::SetSecurityInfo),
                AceCall::SetSecurityInfo => AceStage::Close,
            }
        },
        AceStage::Close => AceStage::Done,
        AceStage::CloseFailed(c, failed) => AceStage::Failed(c, failed),
        _ => s,
    }
}

impl AceChange {
    /// A change that has not begun.
    pub fn begin(entry: AceEntry) -> (c: AceChange)
        ensures
            c == (AceChange { entry, stage: AceStage::Call(AceCall::EngineOpen) }),
    {
        AceChange { entry, stage: AceStage::Call(AceCall::EngineOpen) }
    }

    /// The kind of the session to open, where one is to be opened. It is a
    /// persistent one, so that the rights outlive it.
    pub fn session_kind(&self) -> (k: Option<SessionKind>)
        ensures
            k == (if self.stage == AceStage::Call(AceCall::EngineOpen) {
                Some(SessionKind::Persistent)
            } else {
                None
            }),
    {
        match self.stage {
            AceStage::Call(AceCall::EngineOpen) => Some(SessionKind::Persistent),
            _ => None,
        }
    }

    /// Takes the status of the call that was due.
    pub fn answered(&mut self, rc: u32)
        ensures
            *final(self) == (AceChange {
                entry: old(self).entry,
                stage: next_stage(old(self).stage, rc),
            }),
    {
        self.stage = match self.stage {
            AceStage::Call(c) => if rc != 0 {
                match c {
                    AceCall::EngineOpen => AceStage::Failed(c, rc),
                    _ => AceStage::CloseFailed(c, rc),
                }
            } else {
                match c {
                    AceCall::EngineOpen => AceStage::Call(AceCall::GetSecurityInfo),
                    AceCall::GetSecurityInfo => AceStage::Call(AceCall::SetEntriesInAcl),
                    AceCall::SetEntriesInAcl => AceStage::Call(AceCall::SetSecurityInfo),
                    AceCall::SetSecurityInfo => AceStage::Close,
                }
            },
            AceStage::Close => AceStage::Done,
            AceStage::CloseFailed(c, failed) => AceStage::Failed(c, failed),
            over => over,
        };
    }
}

/// The calls that make a change, in their order. Closing the engine comes after
/// them.
pub open spec fn calls() -> Seq<AceCall> {
    seq![
        AceCall::EngineOpen,
        AceCall::GetSecurityInfo,
        AceCall::SetEntriesInAcl,
        AceCall::SetSecurityInfo,
    ]
}

/// Where a change stands after a list of answers.
pub open spec fn stage_after(answers: Seq<u32>) -> AceStage
    decreases answers.len(),
{
    if answers.len() == 0 {
        AceStage::Call(AceCall::EngineOpen)
    } else {
        next_stage(stage_after(answers.drop_last()), answers.last())
    }
}

/// The access list is written only after it was read and merged, and the
/// first call that fails is the one that is reported, with its status.
pub proof fn law_first_failure_ends_the_change(answers: Seq<u32>)
    ensures
        (forall|i: int| 0 <= i < answers.len() && i < 4 ==> answers[i] == 0) ==> stage_after(
            answers,
        ) == (if answers.len() < 4 {
            AceStage::Call(calls()[answers.len() as int])
        } else if answers.len() == 4 {
            AceStage::Close
        } else {
            AceStage::Done
        }),
        forall|k: int|
            0 <= k < answers.len() && k < 4 && answers[k] != 0 && (forall|i: int|
                0 <= i < k ==> answers[i] == 0) ==> stage_after(answers) == (if k == 0 || k + 1
                < answers.len() {
                AceStage::Failed(calls()[k], #[trigger] answers[k])
            } else {
                AceStage::CloseFailed(calls()[k], answers[k])
            }),
    decreases answers.len(),
{
    if answers.len() > 0 {
        let init = answers.drop_last();
        law_first_failure_ends_the_change(init);
        assert forall|i: int| 0 <= i < init.len() implies init[i] == answers[i] by {}
        assert forall|k: int|
            0 <= k < answers.len() && k < 4 && answers[k] != 0 && (forall|i: int|
                0 <= i < k ==> answers[i] == 0) implies stage_after(answers) == (if k == 0 || k + 1
            < answers.len() {
            AceStage::Failed(calls()[k], #[trigger] answers[k])
        } else {
            AceStage::CloseFailed(calls()[k], answers[k])
        }) by {
            if k < init.len() {
                assert(init[k] == answers[k]);
                assert(forall|i: int| 0 <= i < k ==> init[i] == 0);
            } else {
                assert(forall|i: int| 0 <= i < init.len() ==> init[i] == 0);
            }
        }
        if forall|i: int| 0 <= i < answers.len() && i < 4 ==> answers[i] == 0 {
            assert(forall|i: int| 0 <= i < init.len() && i < 4 ==> init[i] == 0);
            assert(answers.len() <= 4 ==> answers.last() == 0);
        }
    }
}

/// How often the engine was opened.
pub open spec fn opens(answers: Seq<u32>) -> nat
    decreases answers.len(),
{
    if answers.len() == 0 {
        0
    } else {
        opens(answers.drop_last()) + if stage_after(answers.drop_last()) == AceStage::Call(
            AceCall::EngineOpen,
        ) && answers.last() == 0 {
            1nat
        } else {
            0
        }
    }
}

/// How often the engine was closed.
pub open spec fn closes(answers: Seq<u32>) -> nat
    decreases answers.len(),
{
    if answers.len() == 0 {
        0
    } else {
        let s = stage_after(answers.drop_last());
        closes(answers.drop_last()) + if s is Close || s is CloseFailed {
            1nat
        } else {
            0
        }
    }
}

/// An engine that was opened is closed exactly once before the change is over,
/// whether it succeeds or fails; one that could not be opened is not closed.
pub proof fn law_opened_engine_is_closed_once(answers: Seq<u32>)
    ensures
        ({
            let s = stage_after(answers);
            let unopened = s == AceStage::Call(AceCall::EngineOpen) || (s is Failed && s->Failed_0
                == AceCall::EngineOpen);
            &&& opens(answers) == (if unopened {
                0nat
            } else {
                1nat
            })
            &&& s is Done || s is Failed ==> closes(answers) == opens(answers)
            &&& !(s is Done || s is Failed) ==> closes(answers) == 0
            &&& s is CloseFailed ==> s->CloseFailed_0 != AceCall::EngineOpen
        }),
    decreases answers.len(),
{
    if answers.len() > 0 {
        law_opened_engine_is_closed_once(answers.drop_last());
    }
}

/// A change goes its way call by call: open, read, merge, write, close. A failed
/// call ends it, with a close before the end unless nothing was opened, and the
/// failure that is told is that of the call, whatever closing answers.
pub proof fn law_change_steps(c: AceCall, rc: u32, failed: u32, s: AceStage)
    ensures
        next_stage(AceStage::Call(AceCall::EngineOpen), 0) == AceStage::Call(
            AceCall::GetSecurityInfo,
        ),
        next_stage(AceStage::Call(AceCall::GetSecurityInfo), 0) == AceStage::Call(
            AceCall::SetEntriesInAcl,
        ),
        next_stage(AceStage::Call(AceCall::SetEntriesInAcl), 0) == AceStage::Call(
            AceCall::SetSecurityInfo,
        ),
        next_stage(AceStage::Call(AceCall::SetSecurityInfo), 0) == AceStage::Close,
        rc != 0 && c is EngineOpen ==> next_stage(AceStage::Call(c), rc) == AceStage::Failed(c, rc),
        rc != 0 && !(c is EngineOpen) ==> next_stage(AceStage::Call(c), rc)
            == AceStage::CloseFailed(c, rc),
        next_stage(AceStage::Close, rc) == AceStage::Done,
        next_stage(AceStage::CloseFailed(c, failed), rc) == AceStage::Failed(c, failed),
        s is Done || s is Failed ==> next_stage(s, rc) == s,
{
}

/// The calls by name.
pub proof fn law_call_names()
    ensures
        call_name(AceCall::EngineOpen) == "FwpmEngineOpen0"@,
        call_name(AceCall::GetSecurityInfo) == "FwpmEngineGetSecurityInfo0"@,
        call_name(AceCall::SetEntriesInAcl) == "SetEntriesInAclW"@,
        call_name(AceCall::SetSecurityInfo) == "FwpmEngineSetSecurityInfo0"@,
{
}

} // verus!
