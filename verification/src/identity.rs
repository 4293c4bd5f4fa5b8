//! Who a call comes from. The identity is told in diagnostic lines and decides
//! nothing.

use crate::log::{note, note_views, Note, NoteView};
use crate::text::{push_signed, signed};
use crate::wide::{decode_utf16, from_utf16_lossy};
use vstd::prelude::*;

verus! {

/// The user that a call comes from.
#[derive(Debug, Clone, PartialEq, Eq)]
pub struct CallerIdentity {
    pub user_sid: String,
}

/// The text for a user that is not known.
pub const UNKNOWN_SID: &'static str = "<unknown>";

impl CallerIdentity {
    /// A caller that could not be identified.
    pub fn unknown() -> (c: CallerIdentity)
        ensures
            c.user_sid@ == UNKNOWN_SID@,
    {
        CallerIdentity { user_sid: UNKNOWN_SID.to_owned() }
    }
}

/// A status of the RPC runtime in diagnostic lines.
pub open spec fn rpc_status_debug(status: i32) -> Seq<char> {
    "RPC_STATUS("@ + signed(status as int) + ")"@
}

/// Appends a status of the RPC runtime.
pub fn push_rpc_status(m: &mut String, status: i32)
    ensures
        final(m)@ == old(m)@ + rpc_status_debug(status),
{
    m.append("RPC_STATUS(");
    push_signed(m, status);
    m.append(")");
    assert(m@ =~= old(m)@ + rpc_status_debug(status));
}

/// The way to the user of the token of a thread that acts for its caller.
#[derive(Debug)]
pub enum TokenQuery {
    /// Open the token of the thread.
    OpenToken,
    /// Ask how much room the user takes.
    AskSize,
    /// Ask for the user, with this much room.
    AskUser(u32),
    /// Turn the SID of the user into text.
    Convert,
    /// The user, if it could be found out.
    Done(Option<CallerIdentity>),
}

/// What came of a step.
#[derive(Debug)]
pub enum TokenEvent {
    /// Whether a call succeeded.
    Finished(bool),
    /// The room that is needed.
    Size(u32),
    /// The text of a SID in UTF-16, if there is one.
    Text(Option<Vec<u16>>),
}

/// The text of a SID, given what converting it gave.
pub fn sid_to_string(converted: Option<Vec<u16>>) -> (s: Option<String>)
    ensures
        s is Some <==> converted is Some,
        s is Some ==> s->0@ == decode_utf16(converted->0@),
{
    match converted {
        Some(units) => Some(from_utf16_lossy(units.as_slice())),
        None => None,
    }
}

impl TokenQuery {
    /// The query after a step. It ends without a user where a call fails or
    /// the user takes no room; an event that no step asked for changes nothing.
    pub fn next(self, event: TokenEvent) -> (q: TokenQuery)
        ensures
            match (self, event) {
                (TokenQuery::OpenToken, TokenEvent::Finished(ok)) => q == (if ok {
                    TokenQuery::AskSize
                } else {
                    TokenQuery::Done(None)
                }),
                (TokenQuery::AskSize, TokenEvent::Size(n)) => q == (if n == 0 {
                    TokenQuery::Done(None)
                } else {
                    TokenQuery::AskUser(n)
                }),
                (TokenQuery::AskUser(_), TokenEvent::Finished(ok)) => q == (if ok {
                    TokenQuery::Convert
                } else {
                    TokenQuery::Done(None)
                }),
                (TokenQuery::Convert, TokenEvent::Text(t)) => q is Done && (q->Done_0 is Some
                    <==> t is Some) && (t is Some ==> q->Done_0->0.user_sid@ == decode_utf16(
                    t->0@,
                )),
                _ => q == self,
            },
    {
        match (self, event) {
            (TokenQuery::OpenToken, TokenEvent::Finished(ok)) => if ok {
                TokenQuery::AskSize
            } else {
                TokenQuery::Done(None)
            },
            (TokenQuery::AskSize, TokenEvent::Size(n)) => if n == 0 {
                TokenQuery::Done(None)
            } else {
                TokenQuery::AskUser(n)
            },
            (TokenQuery::AskUser(_), TokenEvent::Finished(ok)) => if ok {
                TokenQuery::Convert
            } else {
                TokenQuery::Done(None)
            },
            (TokenQuery::Convert, TokenEvent::Text(t)) => match sid_to_string(t) {
                Some(user_sid) => TokenQuery::Done(Some(CallerIdentity { user_sid })),
                None => TokenQuery::Done(None),
            },
            (q, _) => q,
        }
    }
}

/// Finding out who calls: act for the caller, look for the user, and stop
/// acting for the caller.
#[derive(Debug)]
pub enum Capture {
    /// Begin to act for the caller.
    Impersonate,
    /// Look for the user of the thread.
    Query,
    /// Stop acting for the caller; this user was found.
    Revert(Option<CallerIdentity>),
    /// All is done: the status of acting for the caller, and the user that was
    /// found then.
    Done(i32, Option<CallerIdentity>),
}

/// What came of a step of finding out who calls.
#[derive(Debug)]
pub enum CaptureEvent {
    /// The status of acting for the caller.
    Impersonated(i32),
    /// The user, if it was found.
    Found(Option<CallerIdentity>),
    /// The thread is itself again.
    Reverted,
}

/// The step after an event. Only who acts for the caller looks for the user, and
/// stops acting for the caller whether a user was found or not; an event that no
/// step asked for changes nothing.
pub open spec fn next_capture(c: Capture, e: CaptureEvent) -> Capture {
    match (c, e) {
        (Capture::Impersonate, CaptureEvent::Impersonated(status)) => if status == 0 {
            Capture::Query
        } else {
            Capture::Done(status, None)
        },
        (Capture::Query, CaptureEvent::Found(found)) => Capture::Revert(found),
        (Capture::Revert(found), CaptureEvent::Reverted) => Capture::Done(0, found),
        _ => c,
    }
}

impl Capture {
    /// The step after an event.
    pub fn next(self, event: CaptureEvent) -> (c: Capture)
        ensures
            c == next_capture(self, event),
    {
        match (self, event) {
            (Capture::Impersonate, CaptureEvent::Impersonated(status)) => if status == 0 {
                Capture::Query
            } else {
                Capture::Done(status, None)
            },
            (Capture::Query, CaptureEvent::Found(found)) => Capture::Revert(found),
            (Capture::Revert(found), CaptureEvent::Reverted) => Capture::Done(0, found),
            (c, _) => c,
        }
    }
}

/// The step after a list of events.
pub open spec fn capture_after(events: Seq<CaptureEvent>) -> Capture
    decreases events.len(),
{
    if events.len() == 0 {
        Capture::Impersonate
    } else {
        next_capture(capture_after(events.drop_last()), events.last())
    }
}

/// How often the thread began to act for the caller.
pub open spec fn impersonations(events: Seq<CaptureEvent>) -> nat
    decreases events.len(),
{
    if events.len() == 0 {
        0
    } else {
        impersonations(events.drop_last()) + if capture_after(events.drop_last()) is Impersonate
            && events.last() == CaptureEvent::Impersonated(0) {
            1nat
        } else {
            0
        }
    }
}

/// How often the thread stopped acting for the caller.
pub open spec fn reverts(events: Seq<CaptureEvent>) -> nat
    decreases events.len(),
{
    if events.len() == 0 {
        0
    } else {
        reverts(events.drop_last()) + if capture_after(events.drop_last()) is Revert
            && events.last() is Reverted {
            1nat
        } else {
            0
        }
    }
}

/// Where acting for the caller succeeded, it is ended exactly once, also where
/// no user was found; where it failed, it is not ended.
pub proof fn law_impersonation_is_reverted_once(events: Seq<CaptureEvent>)
    ensures
        ({
            let c = capture_after(events);
            &&& c is Done ==> reverts(events) == impersonations(events) && impersonations(events)
                == (if c->Done_0 == 0 {
                1nat
            } else {
                0nat
            })
            &&& c is Impersonate ==> reverts(events) == 0 && impersonations(events) == 0
            &&& c is Query || c is Revert ==> reverts(events) == 0 && impersonations(events) == 1
        }),
    decreases events.len(),
{
    if events.len() > 0 {
        law_impersonation_is_reverted_once(events.drop_last());
    }
}

/// The caller, given the status of acting for it and the user that was found
/// then. A caller that cannot be found out is unknown, and a note says why.
pub fn capture_lrpc(
    status: i32,
    found: Option<CallerIdentity>,
    notes: &mut Vec<Note>,
) -> (c: CallerIdentity)
    ensures
        status != 0 || found is None ==> c.user_sid@ == "<unknown>"@,
        status == 0 && found is Some ==> c.user_sid@ == found->0.user_sid@ && note_views(
            final(notes)@,
        ) == note_views(old(notes)@),
        status != 0 ==> c.user_sid@ == UNKNOWN_SID@ && note_views(final(notes)@) == note_views(
            old(notes)@,
        ).push(
            NoteView::Diag("identity: RpcImpersonateClient failed: "@ + rpc_status_debug(status)),
        ),
        status == 0 && found is None ==> c.user_sid@ == UNKNOWN_SID@ && note_views(final(notes)@)
            == note_views(old(notes)@).push(
            NoteView::Diag("identity: OpenThreadToken / GetTokenInformation returned None"@),
        ),
{
    if status != 0 {
        let mut m: String = "identity: RpcImpersonateClient failed: ".to_owned();
        push_rpc_status(&mut m, status);
        note(notes, Note::Diag(m));
        return CallerIdentity::unknown();
    }
    match found {
        Some(c) => c,
        None => {
            note(
                notes,
                Note::Diag(
                    "identity: OpenThreadToken / GetTokenInformation returned None".to_owned(),
                ),
            );
            CallerIdentity::unknown()
        },
    }
}

/// Finding out who calls goes its way step by step: only where acting for the
/// caller succeeded is the user looked for, then acting for the caller ends, and
/// the user that was found is kept. What no step asked for changes nothing.
pub proof fn law_capture_steps(c: Capture, e: CaptureEvent)
    ensures
        c is Impersonate && e is Impersonated ==> next_capture(c, e) == (if e->Impersonated_0
            == 0 {
            Capture::Query
        } else {
            Capture::Done(e->Impersonated_0, None)
        }),
        c is Query && e is Found ==> next_capture(c, e) == Capture::Revert(e->Found_0),
        c is Revert && e is Reverted ==> next_capture(c, e) == Capture::Done(0, c->Revert_0),
        c is Impersonate && !(e is Impersonated) || c is Query && !(e is Found) || c is Revert && !(
        e is Reverted) || c is Done ==> next_capture(c, e) == c,
{
}

/// The user that is looked for while acting for the caller is the one that is
/// given in the end.
pub proof fn law_capture_gives_the_user(status: i32, found: Option<CallerIdentity>)
    ensures
        capture_after(
            seq![
                CaptureEvent::Impersonated(0),
                CaptureEvent::Found(found),
                CaptureEvent::Reverted,
            ],
        ) == Capture::Done(0, found),
        status != 0 ==> capture_after(seq![CaptureEvent::Impersonated(status)]) == Capture::Done(
            status,
            None,
        ),
{
    reveal_with_fuel(capture_after, 4);
    let e1 = seq![CaptureEvent::Impersonated(0)];
    let e2 = seq![CaptureEvent::Impersonated(0), CaptureEvent::Found(found)];
    let e3 = seq![
        CaptureEvent::Impersonated(0),
        CaptureEvent::Found(found),
        CaptureEvent::Reverted,
    ];
    assert(e3.drop_last() =~= e2);
    assert(e2.drop_last() =~= e1);
    assert(e1.drop_last() =~= Seq::<CaptureEvent>::empty());
    assert(seq![CaptureEvent::Impersonated(status)].drop_last() =~= Seq::<CaptureEvent>::empty());
}

/// A status is written with its sign between brackets.
pub proof fn law_status_text(status: i32)
    ensures
        rpc_status_debug(status) == "RPC_STATUS("@ + signed(status as int) + ")"@,
{
}

} // verus!
