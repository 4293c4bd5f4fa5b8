//! Binding a policy to the life of its sandbox: a watcher per policy waits for
//! the process to end and then has the policy removed.

use crate::log::{note, note_views, Note, NoteView};
use crate::proto::{error_message, uuid_text, ErrorView, PolicyId, ServiceError};
use crate::text::{decimal, push_decimal};
use std::collections::HashMap;
use vstd::prelude::*;

verus! {

broadcast use vstd::std_specs::hash::group_hash_axioms;

/// The policies that are watched, each with the token of its watch, and for
/// every watch that ever was whether it was cancelled. A policy that is watched
/// anew gets a watch of its own, so that a cancelled one stays cancelled.
#[derive(Debug)]
pub struct Watchers {
    live: HashMap<u128, usize>,
    cancelled: Vec<bool>,
}

/// Watchers with their contents as a map and a sequence.
#[verifier::ext_equal]
pub struct WatchersView {
    pub live: Map<u128, usize>,
    pub cancelled: Seq<bool>,
}

impl View for Watchers {
    type V = WatchersView;

    closed spec fn view(&self) -> WatchersView {
        WatchersView { live: self.live@, cancelled: self.cancelled@ }
    }
}

impl WatchersView {
    /// What can be: a policy that is watched has a watch of its own, which was
    /// not cancelled.
    pub open spec fn wf(self) -> bool {
        &&& forall|p: u128| #[trigger]
            self.live.contains_key(p) ==> self.live[p] < self.cancelled.len()
                && !self.cancelled[self.live[p] as int]
        &&& forall|p: u128, q: u128|
            #![trigger self.live[p], self.live[q]]
            self.live.contains_key(p) && self.live.contains_key(q) && p != q ==> self.live[p]
                != self.live[q]
    }

    /// Whether a watch was cancelled.
    pub open spec fn is_cancelled(self, token: usize) -> bool {
        token < self.cancelled.len() && self.cancelled[token as int]
    }

    /// The watchers with a new watch of a policy.
    pub open spec fn with_watch(self, id: PolicyId) -> WatchersView {
        WatchersView {
            live: self.live.insert(id.0, self.cancelled.len() as usize),
            cancelled: self.cancelled.push(false),
        }
    }

    /// The watchers after the watch of a policy was cancelled.
    pub open spec fn cancel(self, id: PolicyId) -> WatchersView {
        if self.live.contains_key(id.0) {
            WatchersView {
                live: self.live.remove(id.0),
                cancelled: self.cancelled.update(self.live[id.0] as int, true),
            }
        } else {
            self
        }
    }

    /// The watchers after the watcher of a policy ended.
    pub open spec fn ended(self, id: PolicyId) -> WatchersView {
        WatchersView { live: self.live.remove(id.0), cancelled: self.cancelled }
    }
}

/// A watcher that is to be started: the name of its thread, and the token by
/// which it asks whether it was cancelled.
#[derive(Debug, Clone, PartialEq, Eq)]
pub struct Watch {
    pub name: String,
    pub token: usize,
}

/// The name of the thread of a watcher.
pub open spec fn watcher_name(id: PolicyId) -> Seq<char> {
    "policy-watch-"@ + uuid_text(id.0)
}

/// No watchers.
pub fn watchers() -> (w: Watchers)
    ensures
        w@ == (WatchersView { live: Map::empty(), cancelled: Seq::empty() }),
{
    let w: Watchers = Watchers { live: HashMap::new(), cancelled: Vec::new() };
    assert(w@ =~= (WatchersView { live: Map::empty(), cancelled: Seq::empty() }));
    w
}

/// Whether a policy with a sandbox process is to be watched: there is a
/// process, and no watcher yet.
pub open spec fn is_new_watch(w: WatchersView, id: PolicyId, pid: u32) -> bool {
    pid != 0 && !w.live.contains_key(id.0)
}

/// Whether this watcher is the one to start for a policy.
pub open spec fn is_watch_of(watch: Watch, w: WatchersView, id: PolicyId) -> bool {
    watch.name@ == watcher_name(id) && watch.token == w.cancelled.len()
}

/// Watches a policy. The result is the watcher that is to be started, if one
/// is.
pub fn track(w: &mut Watchers, policy_id: PolicyId, sandbox_pid: u32) -> (start: Option<Watch>)
    ensures
        start is Some <==> is_new_watch(old(w)@, policy_id, sandbox_pid),
        start is Some <==> sandbox_pid > 0 && !old(w)@.live.dom().contains(policy_id.0),
        start is Some ==> start->0.name@ == "policy-watch-"@ + uuid_text(policy_id.0)
            && start->0.token == old(w)@.cancelled.len(),
        start is Some ==> final(w)@.live == old(w)@.live.insert(policy_id.0, start->0.token)
            && final(w)@.cancelled == old(w)@.cancelled + seq![false],
        start is Some ==> is_watch_of(start->0, old(w)@, policy_id) && final(w)@ == old(
            w,
        )@.with_watch(policy_id),
        start is None ==> final(w)@ == old(w)@,
{
    if sandbox_pid == 0 {
        return None;
    }
    if w.live.contains_key(&policy_id.0) {
        return None;
    }
    proof {
        use_type_invariant(&*w);
    }
    let ghost before = w@;
    let mut live: HashMap<u128, usize> = HashMap::new();
    std::mem::swap(&mut live, &mut w.live);
    let token: usize = w.cancelled.len();
    let mut cancelled: Vec<bool> = Vec::new();
    std::mem::swap(&mut cancelled, &mut w.cancelled);
    live.insert(policy_id.0, token);
    cancelled.push(false);
    proof {
        lemma_next_wf(before, WatchersEvent::Track(policy_id, sandbox_pid));
        assert(WatchersView { live: live@, cancelled: cancelled@ } =~= before.with_watch(
            policy_id,
        ));
    }
    w.cancelled = cancelled;
    w.live = live;
    let mut name: String = "policy-watch-".to_owned();
    name.append(policy_id.text().as_str());
    Some(Watch { name, token })
}

/// Cancels the watch of a policy. The result says whether it was watched.
pub fn cancel(w: &mut Watchers, policy_id: PolicyId) -> (found: bool)
    ensures
        found == old(w)@.live.contains_key(policy_id.0),
        final(w)@ == old(w)@.cancel(policy_id),
        final(w)@.live == old(w)@.live.remove(policy_id.0),
        found ==> final(w)@.cancelled == old(w)@.cancelled.update(
            old(w)@.live[policy_id.0] as int,
            true,
        ),
        !found ==> final(w)@.cancelled == old(w)@.cancelled,
{
    proof {
        use_type_invariant(&*w);
    }
    let ghost before = w@;
    assert(before.live.contains_key(policy_id.0) ==> before.live[policy_id.0]
        < before.cancelled.len());
    let mut live: HashMap<u128, usize> = HashMap::new();
    std::mem::swap(&mut live, &mut w.live);
    let mut cancelled: Vec<bool> = Vec::new();
    std::mem::swap(&mut cancelled, &mut w.cancelled);
    let taken: Option<usize> = live.remove(&policy_id.0);
    if let Some(token) = taken {
        cancelled.set(token, true);
    }
    proof {
        lemma_next_wf(before, WatchersEvent::Cancel(policy_id));
        assert(WatchersView { live: live@, cancelled: cancelled@ } =~= before.cancel(policy_id));
    }
    w.cancelled = cancelled;
    w.live = live;
    taken.is_some()
}

impl Watchers {
    #[verifier::type_invariant]
    spec fn inv(self) -> bool {
        self@.wf()
    }

    /// Whether the watch with this token was cancelled.
    pub fn is_cancelled(&self, token: usize) -> (r: bool)
        ensures
            r == self@.is_cancelled(token),
            r ==> token < self@.cancelled.len() && self@.cancelled[token as int],
            !r && token < self@.cancelled.len() ==> !self@.cancelled[token as int],
    {
        token < self.cancelled.len() && self.cancelled[token]
    }

    /// Forgets the watcher of a policy, which has ended.
    fn end(&mut self, policy_id: PolicyId)
        ensures
            final(self)@ == old(self)@.ended(policy_id),
    {
        proof {
            use_type_invariant(&*self);
        }
        let ghost before = self@;
        let mut live: HashMap<u128, usize> = HashMap::new();
        std::mem::swap(&mut live, &mut self.live);
        let _ = live.remove(&policy_id.0);
        proof {
            lemma_next_wf(before, WatchersEvent::End(policy_id));
            assert(live@ =~= before.ended(policy_id).live);
        }
        self.live = live;
    }
}

/// How a wait ends.
#[derive(Debug, Clone, Copy, PartialEq, Eq, Structural)]
pub enum WaitOutcome {
    /// The process is gone.
    Exited,
    /// The watch was cancelled.
    Cancelled,
    /// The process could not be opened, with this code.
    OpenFailed(u32),
}

/// What a watcher does next.
#[derive(Debug, Clone, Copy, PartialEq, Eq, Structural)]
pub enum WatchState {
    /// Open the process to wait for it.
    OpenToWait,
    /// Unless cancelled, wait for the process for a slice of time.
    Waiting,
    /// Open the process to ask for its exit code.
    OpenToPoll,
    /// Unless cancelled, ask for the exit code, then pause.
    Polling,
    /// The wait is over.
    Ended(WaitOutcome),
}

/// What came of what a watcher did.
#[derive(Debug, Clone, Copy, PartialEq, Eq, Structural)]
pub enum WatchEvent {
    /// The process was opened.
    Opened,
    /// Opening gave a handle that is not valid.
    OpenedInvalid,
    /// Opening failed with this code.
    OpenError(u32),
    /// The watch was cancelled.
    Cancelled,
    /// The wait for the process ended with this result.
    Waited(u32),
    /// The exit code of the process.
    ExitCode(u32),
    /// The exit code could not be asked for.
    NoExitCode,
}

/// The length of a wait, in milliseconds.
pub const WAIT_SLICE_MS: u32 = 250;

/// The pause between two questions for the exit code, in milliseconds.
pub const POLL_PAUSE_MS: u64 = 500;

/// The code for a denied access.
pub const ERROR_ACCESS_DENIED: u32 = 5;

/// `ERROR_ACCESS_DENIED` as an `HRESULT`.
pub const E_ACCESSDENIED: u32 = 0x8007_0005;

/// The result of a wait that was not long enough.
pub const WAIT_TIMEOUT: u32 = 258;

/// The exit code of a process that has not ended.
pub const STILL_ACTIVE: u32 = 259;

/// What a watcher does after an event. Where the process may not be waited
/// for, it is asked for its exit code instead; a wait that fails counts as the
/// end of the process, so that no watcher is left over.
pub open spec fn next_state(s: WatchState, e: WatchEvent) -> WatchState {
    match (s, e) {
        (WatchState::OpenToWait, WatchEvent::Opened) => WatchState::Waiting,
        (WatchState::OpenToWait, WatchEvent::OpenedInvalid) => WatchState::OpenToPoll,
        (WatchState::OpenToWait, WatchEvent::OpenError(code)) => if code == ERROR_ACCESS_DENIED
            || code == E_ACCESSDENIED {
            WatchState::OpenToPoll
        } else {
            WatchState::Ended(WaitOutcome::OpenFailed(code))
        },
        (WatchState::Waiting, WatchEvent::Cancelled) => WatchState::Ended(WaitOutcome::Cancelled),
        (WatchState::Waiting, WatchEvent::Waited(r)) => if r == WAIT_TIMEOUT {
            WatchState::Waiting
        } else {
            WatchState::Ended(WaitOutcome::Exited)
        },
        (WatchState::OpenToPoll, WatchEvent::Opened) => WatchState::Polling,
        (WatchState::OpenToPoll, WatchEvent::OpenedInvalid) => WatchState::Ended(
            WaitOutcome::Exited,
        ),
        (WatchState::OpenToPoll, WatchEvent::OpenError(_)) => WatchState::Ended(
            WaitOutcome::Exited,
        ),
        (WatchState::Polling, WatchEvent::Cancelled) => WatchState::Ended(WaitOutcome::Cancelled),
        (WatchState::Polling, WatchEvent::ExitCode(code)) => if code == STILL_ACTIVE {
            WatchState::Polling
        } else {
            WatchState::Ended(WaitOutcome::Exited)
        },
        (WatchState::Polling, WatchEvent::NoExitCode) => WatchState::Ended(WaitOutcome::Exited),
        _ => s,
    }
}

/// A watcher at its start.
pub fn watch() -> (s: WatchState)
    ensures
        s == WatchState::OpenToWait,
{
    WatchState::OpenToWait
}

impl WatchState {
    /// What to do after an event.
    pub fn next(self, e: WatchEvent) -> (s: WatchState)
        ensures
            s == next_state(self, e),
    {
        match (self, e) {
            (WatchState::OpenToWait, WatchEvent::Opened) => WatchState::Waiting,
            (WatchState::OpenToWait, WatchEvent::OpenedInvalid) => WatchState::OpenToPoll,
            (WatchState::OpenToWait, WatchEvent::OpenError(code)) => if code == ERROR_ACCESS_DENIED
                || code == E_ACCESSDENIED {
                WatchState::OpenToPoll
            } else {
                WatchState::Ended(WaitOutcome::OpenFailed(code))
            },
            (WatchState::Waiting, WatchEvent::Cancelled) => WatchState::Ended(
                WaitOutcome::Cancelled,
            ),
            (WatchState::Waiting, WatchEvent::Waited(r)) => if r == WAIT_TIMEOUT {
                WatchState::Waiting
            } else {
                WatchState::Ended(WaitOutcome::Exited)
            },
            (WatchState::OpenToPoll, WatchEvent::Opened) => WatchState::Polling,
            (WatchState::OpenToPoll, WatchEvent::OpenedInvalid) => WatchState::Ended(
                WaitOutcome::Exited,
            ),
            (WatchState::OpenToPoll, WatchEvent::OpenError(_)) => WatchState::Ended(
                WaitOutcome::Exited,
            ),
            (WatchState::Polling, WatchEvent::Cancelled) => WatchState::Ended(
                WaitOutcome::Cancelled,
            ),
            (WatchState::Polling, WatchEvent::ExitCode(code)) => if code == STILL_ACTIVE {
                WatchState::Polling
            } else {
                WatchState::Ended(WaitOutcome::Exited)
            },
            (WatchState::Polling, WatchEvent::NoExitCode) => WatchState::Ended(
                WaitOutcome::Exited,
            ),
            (s, _) => s,
        }
    }
}

/// What a watcher does after it has asked whether its watch was cancelled, as it
/// does before every wait and every question for the exit code.
pub open spec fn looked(s: WatchState, w: WatchersView, token: usize) -> WatchState {
    if (s == WatchState::Waiting || s == WatchState::Polling) && w.is_cancelled(token) {
        next_state(s, WatchEvent::Cancelled)
    } else {
        s
    }
}

impl WatchState {
    /// Ends the wait if the watch was cancelled.
    pub fn look(self, w: &Watchers, token: usize) -> (s: WatchState)
        ensures
            s == looked(self, w@, token),
            (self is Waiting || self is Polling) && token < w@.cancelled.len()
                && w@.cancelled[token as int] ==> s == WatchState::Ended(WaitOutcome::Cancelled),
            !(self is Waiting || self is Polling) || token >= w@.cancelled.len()
                || !w@.cancelled[token as int] ==> s == self,
    {
        match self {
            WatchState::Waiting | WatchState::Polling => if w.is_cancelled(token) {
                self.next(WatchEvent::Cancelled)
            } else {
                self
            },
            _ => self,
        }
    }
}

/// What the end of a watch is noted as.
pub open spec fn end_notes(id: PolicyId, pid: u32, outcome: WaitOutcome) -> Seq<NoteView> {
    match outcome {
        WaitOutcome::OpenFailed(code) => seq![
            NoteView::Warn(
                "lifetime watcher: OpenProcess("@ + decimal(pid as nat) + ") failed: code="@
                    + decimal(code as nat) + " \u{2014} policy "@ + uuid_text(id.0)
                    + " will only clean up on explicit RemovePolicy"@,
            ),
            NoteView::Diag(
                "lifetime: OpenProcess("@ + decimal(pid as nat) + ") failed code="@ + decimal(
                    code as nat,
                ) + " for policy "@ + uuid_text(id.0) + " (no auto-cleanup on sandbox crash)"@,
            ),
        ],
        WaitOutcome::Cancelled => Seq::empty(),
        WaitOutcome::Exited => seq![
            NoteView::Diag(
                "lifetime: sandbox pid="@ + decimal(pid as nat)
                    + " exited \u{2192} auto-RemovePolicy "@ + uuid_text(id.0),
            ),
        ],
    }
}

/// Whether a policy is to be removed at the end of its watch.
pub open spec fn asks_for_removal(outcome: WaitOutcome) -> bool {
    outcome == WaitOutcome::Exited
}

/// Ends a watch. The result says whether the policy is to be removed now: only
/// where the wait ended because the sandbox is gone.
pub fn end_watch(
    w: &mut Watchers,
    policy_id: PolicyId,
    pid: u32,
    outcome: WaitOutcome,
    notes: &mut Vec<Note>,
) -> (remove: bool)
    ensures
        remove == asks_for_removal(outcome),
        remove <==> outcome is Exited,
        final(w)@ == old(w)@.ended(policy_id),
        final(w)@.live == old(w)@.live.remove(policy_id.0),
        final(w)@.cancelled == old(w)@.cancelled,
        note_views(final(notes)@) == note_views(old(notes)@) + end_notes(policy_id, pid, outcome),
{
    w.end(policy_id);
    match outcome {
        WaitOutcome::OpenFailed(code) => {
            let mut m: String = "lifetime watcher: OpenProcess(".to_owned();
            push_decimal(&mut m, pid as u64);
            m.append(") failed: code=");
            push_decimal(&mut m, code as u64);
            m.append(" \u{2014} policy ");
            m.append(policy_id.text().as_str());
            m.append(" will only clean up on explicit RemovePolicy");
            assert(NoteView::Warn(m@) == end_notes(policy_id, pid, outcome)[0]);
            note(notes, Note::Warn(m));
            let mut d: String = "lifetime: OpenProcess(".to_owned();
            push_decimal(&mut d, pid as u64);
            d.append(") failed code=");
            push_decimal(&mut d, code as u64);
            d.append(" for policy ");
            d.append(policy_id.text().as_str());
            d.append(" (no auto-cleanup on sandbox crash)");
            assert(NoteView::Diag(d@) == end_notes(policy_id, pid, outcome)[1]);
            note(notes, Note::Diag(d));
            false
        },
        WaitOutcome::Cancelled => false,
        WaitOutcome::Exited => {
            let mut d: String = "lifetime: sandbox pid=".to_owned();
            push_decimal(&mut d, pid as u64);
            d.append(" exited \u{2192} auto-RemovePolicy ");
            d.append(policy_id.text().as_str());
            assert(NoteView::Diag(d@) == end_notes(policy_id, pid, outcome)[0]);
            note(notes, Note::Diag(d));
            true
        },
    }
}

/// What the removal at the end of a watch is noted as.
pub open spec fn removal_notes(id: PolicyId, result: Result<u32, ErrorView>) -> Seq<NoteView> {
    match result {
        Ok(removed) => seq![
            NoteView::Info(
                "auto-cleanup: policy "@ + uuid_text(id.0) + " removed (filters_removed="@
                    + decimal(removed as nat) + ")"@,
            ),
            NoteView::Diag(
                "lifetime: auto-RemovePolicy "@ + uuid_text(id.0) + " -> filters_removed="@
                    + decimal(removed as nat),
            ),
        ],
        Err(e) => seq![
            NoteView::Warn(
                "auto-cleanup: policy "@ + uuid_text(id.0) + " remove failed: "@ + error_message(e),
            ),
            NoteView::Diag(
                "lifetime: auto-RemovePolicy "@ + uuid_text(id.0) + " failed: "@ + error_message(e),
            ),
        ],
    }
}

/// Notes what came of the removal at the end of a watch.
pub fn note_removal(policy_id: PolicyId, result: &Result<u32, ServiceError>, notes: &mut Vec<Note>)
    ensures
        note_views(final(notes)@) == note_views(old(notes)@) + removal_notes(
            policy_id,
            match *result {
                Ok(n) => Ok(n),
                Err(e) => Err(e@),
            },
        ),
{
    let mut m: String = "auto-cleanup: policy ".to_owned();
    m.append(policy_id.text().as_str());
    let mut d: String = "lifetime: auto-RemovePolicy ".to_owned();
    d.append(policy_id.text().as_str());
    match result {
        Ok(removed) => {
            m.append(" removed (filters_removed=");
            push_decimal(&mut m, *removed as u64);
            m.append(")");
            d.append(" -> filters_removed=");
            push_decimal(&mut d, *removed as u64);
            assert(NoteView::Info(m@) == removal_notes(policy_id, Ok(*removed))[0]);
            assert(NoteView::Diag(d@) == removal_notes(policy_id, Ok(*removed))[1]);
            note(notes, Note::Info(m));
        },
        Err(e) => {
            m.append(" remove failed: ");
            m.append(e.message().as_str());
            d.append(" failed: ");
            d.append(e.message().as_str());
            assert(NoteView::Warn(m@) == removal_notes(policy_id, Err(e@))[0]);
            assert(NoteView::Diag(d@) == removal_notes(policy_id, Err(e@))[1]);
            note(notes, Note::Warn(m));
        },
    }
    note(notes, Note::Diag(d));
}

/// A watcher after a list of events.
pub open spec fn state_after(events: Seq<WatchEvent>) -> WatchState
    decreases events.len(),
{
    if events.len() == 0 {
        WatchState::OpenToWait
    } else {
        next_state(state_after(events.drop_last()), events.last())
    }
}

/// Whether an event tells that a process is gone, or that nothing more can be
/// learned of it.
pub open spec fn tells_of_exit(e: WatchEvent) -> bool {
    match e {
        WatchEvent::Waited(r) => r != WAIT_TIMEOUT,
        WatchEvent::ExitCode(code) => code != STILL_ACTIVE,
        WatchEvent::NoExitCode => true,
        WatchEvent::OpenedInvalid => true,
        WatchEvent::OpenError(_) => true,
        _ => false,
    }
}

/// A wait ends as cancelled only if it was cancelled, and as exited only after
/// an event that tells of it. Once over, it stays over.
pub proof fn law_wait_ends_for_a_reason(events: Seq<WatchEvent>, more: WatchEvent)
    ensures
        state_after(events) == WatchState::Ended(WaitOutcome::Cancelled) ==> exists|i: int|
            0 <= i < events.len() && #[trigger] events[i] == WatchEvent::Cancelled,
        state_after(events) == WatchState::Ended(WaitOutcome::Exited) ==> exists|i: int|
            0 <= i < events.len() && tells_of_exit(#[trigger] events[i]),
        state_after(events) is Ended ==> next_state(state_after(events), more) == state_after(
            events,
        ),
    decreases events.len(),
{
    if events.len() > 0 {
        let init = events.drop_last();
        law_wait_ends_for_a_reason(init, more);
        assert(events[events.len() - 1] == events.last());
        if exists|i: int| 0 <= i < init.len() && #[trigger] init[i] == WatchEvent::Cancelled {
            let i = choose|i: int|
                0 <= i < init.len() && #[trigger] init[i] == WatchEvent::Cancelled;
            assert(events[i] == WatchEvent::Cancelled);
        }
        if exists|i: int| 0 <= i < init.len() && tells_of_exit(#[trigger] init[i]) {
            let i = choose|i: int| 0 <= i < init.len() && tells_of_exit(#[trigger] init[i]);
            assert(tells_of_exit(events[i]));
        }
    }
}

/// A watcher that waits for a process, or asks for its exit code, ends as exited
/// at the first event that tells that the process is gone, whatever the exit
/// code, or that nothing more can be learned of it; while the process runs it
/// goes on, and it ends as cancelled where its watch was cancelled. Whatever a
/// step did not ask for changes nothing.
pub proof fn law_watcher_follows_the_process(e: WatchEvent)
    ensures
        next_state(WatchState::Waiting, e) == (match e {
            WatchEvent::Waited(r) => if r == 258 {
                WatchState::Waiting
            } else {
                WatchState::Ended(WaitOutcome::Exited)
            },
            WatchEvent::Cancelled => WatchState::Ended(WaitOutcome::Cancelled),
            _ => WatchState::Waiting,
        }),
        next_state(WatchState::Polling, e) == (match e {
            WatchEvent::ExitCode(code) => if code == 259 {
                WatchState::Polling
            } else {
                WatchState::Ended(WaitOutcome::Exited)
            },
            WatchEvent::NoExitCode => WatchState::Ended(WaitOutcome::Exited),
            WatchEvent::Cancelled => WatchState::Ended(WaitOutcome::Cancelled),
            _ => WatchState::Polling,
        }),
{
}

/// How a watcher comes to wait or to poll: it waits where the process may be
/// opened for that, polls where that is denied, and gives up only where the
/// process cannot be opened for another reason. A process that cannot be opened
/// to be polled is gone.
pub proof fn law_denied_wait_is_polled(e: WatchEvent)
    ensures
        next_state(WatchState::OpenToWait, e) == (match e {
            WatchEvent::Opened => WatchState::Waiting,
            WatchEvent::OpenedInvalid => WatchState::OpenToPoll,
            WatchEvent::OpenError(code) => if code == 5 || code == 0x8007_0005 {
                WatchState::OpenToPoll
            } else {
                WatchState::Ended(WaitOutcome::OpenFailed(code))
            },
            _ => WatchState::OpenToWait,
        }),
        next_state(WatchState::OpenToPoll, e) == (match e {
            WatchEvent::Opened => WatchState::Polling,
            WatchEvent::OpenedInvalid => WatchState::Ended(WaitOutcome::Exited),
            WatchEvent::OpenError(_) => WatchState::Ended(WaitOutcome::Exited),
            _ => WatchState::OpenToPoll,
        }),
{
}

/// Whether a watcher has something to wait for.
pub open spec fn is_on_watch(s: WatchState) -> bool {
    s == WatchState::Waiting || s == WatchState::Polling
}

/// A watcher goes on exactly as long as it is told that the process runs: after
/// any number of such events it is where it was, and the next event of the kind
/// that it asked for and that tells otherwise ends it as exited.
pub proof fn law_watch_lasts_as_long_as_the_process(events: Seq<WatchEvent>, k: int)
    requires
        0 < k <= events.len(),
        is_on_watch(state_after(events.take(k))),
        forall|i: int|
            k <= i < events.len() ==> #[trigger] events[i] == (if state_after(events.take(k))
                == WatchState::Waiting {
                WatchEvent::Waited(258)
            } else {
                WatchEvent::ExitCode(259)
            }),
    ensures
        state_after(events) == state_after(events.take(k)),
        forall|r: u32|
            r != 258 && state_after(events) == WatchState::Waiting ==> state_after(
                #[trigger] events.push(WatchEvent::Waited(r)),
            ) == WatchState::Ended(WaitOutcome::Exited),
        forall|c: u32|
            c != 259 && state_after(events) == WatchState::Polling ==> state_after(
                #[trigger] events.push(WatchEvent::ExitCode(c)),
            ) == WatchState::Ended(WaitOutcome::Exited),
    decreases events.len(),
{
    if k < events.len() {
        let init = events.drop_last();
        assert(init.take(k) =~= events.take(k));
        law_watch_lasts_as_long_as_the_process(init, k);
        assert(events[events.len() - 1] == events.last());
    } else {
        assert(events.take(k) =~= events);
    }
    assert forall|r: u32|
        r != 258 && state_after(events) == WatchState::Waiting implies state_after(
        #[trigger] events.push(WatchEvent::Waited(r)),
    ) == WatchState::Ended(WaitOutcome::Exited) by {
        assert(events.push(WatchEvent::Waited(r)).drop_last() =~= events);
    }
    assert forall|c: u32|
        c != 259 && state_after(events) == WatchState::Polling implies state_after(
        #[trigger] events.push(WatchEvent::ExitCode(c)),
    ) == WatchState::Ended(WaitOutcome::Exited) by {
        assert(events.push(WatchEvent::ExitCode(c)).drop_last() =~= events);
    }
}

/// What happens to the watchers.
pub enum WatchersEvent {
    Track(PolicyId, u32),
    Cancel(PolicyId),
    End(PolicyId),
}

/// The watchers after an event.
pub open spec fn watchers_next(w: WatchersView, e: WatchersEvent) -> WatchersView {
    match e {
        WatchersEvent::Track(id, pid) => if is_new_watch(w, id, pid) {
            w.with_watch(id)
        } else {
            w
        },
        WatchersEvent::Cancel(id) => w.cancel(id),
        WatchersEvent::End(id) => w.ended(id),
    }
}

/// The watchers after a list of events.
pub open spec fn watchers_after(w: WatchersView, events: Seq<WatchersEvent>) -> WatchersView
    decreases events.len(),
{
    if events.len() == 0 {
        w
    } else {
        watchers_next(watchers_after(w, events.drop_last()), events.last())
    }
}

proof fn lemma_next_wf(w: WatchersView, e: WatchersEvent)
    requires
        w.wf(),
        e is Track ==> w.cancelled.len() <= usize::MAX,
    ensures
        watchers_next(w, e).wf(),
{
    let after = watchers_next(w, e);
    assert forall|p: u128| #[trigger] after.live.contains_key(p) implies after.live[p]
        < after.cancelled.len() && !after.cancelled[after.live[p] as int] by {
        if w.live.contains_key(p) {
            assert(w.live[p] < w.cancelled.len());
            match e {
                WatchersEvent::Cancel(id) => {
                    if w.live.contains_key(id.0) {
                        assert(w.live[p] != w.live[id.0]);
                    }
                },
                _ => {},
            }
        }
    }
    assert forall|p: u128, q: u128|
        #![trigger after.live[p], after.live[q]]
        after.live.contains_key(p) && after.live.contains_key(q) && p != q implies after.live[p]
        != after.live[q] by {
        if w.live.contains_key(p) {
            assert(w.live[p] < w.cancelled.len());
        }
        if w.live.contains_key(q) {
            assert(w.live[q] < w.cancelled.len());
        }
        if w.live.contains_key(p) && w.live.contains_key(q) {
            assert(w.live[p] != w.live[q]);
        }
    }
}

proof fn lemma_stays_cancelled(w: WatchersView, events: Seq<WatchersEvent>, token: usize)
    requires
        w.wf(),
        w.cancelled.len() + events.len() <= usize::MAX,
    ensures
        watchers_after(w, events).wf(),
        watchers_after(w, events).cancelled.len() <= w.cancelled.len() + events.len(),
        w.is_cancelled(token) ==> watchers_after(w, events).is_cancelled(token),
    decreases events.len(),
{
    if events.len() > 0 {
        let before = watchers_after(w, events.drop_last());
        lemma_stays_cancelled(w, events.drop_last(), token);
        lemma_next_wf(before, events.last());
        match events.last() {
            WatchersEvent::Cancel(id) => {
                assert(before.live.contains_key(id.0) ==> before.live[id.0]
                    < before.cancelled.len());
            },
            _ => {},
        }
    }
}

/// A watch that is cancelled stays cancelled, whatever is watched, cancelled or
/// ended afterwards, the same policy included. A watcher that waits or polls
/// then ends as cancelled, notes nothing and asks for no removal: what is
/// removed on request is not removed twice.
pub proof fn law_cancelled_watch_removes_nothing(
    w: WatchersView,
    id: PolicyId,
    pid: u32,
    events: Seq<WatchersEvent>,
    s: WatchState,
)
    requires
        w.wf(),
        w.live.contains_key(id.0),
        w.cancelled.len() + events.len() <= usize::MAX,
    ensures
        ({
            let token = w.live[id.0];
            let after = watchers_after(w.cancel(id), events);
            &&& !w.is_cancelled(token)
            &&& after.is_cancelled(token)
            &&& s == WatchState::Waiting || s == WatchState::Polling ==> looked(s, after, token)
                == WatchState::Ended(WaitOutcome::Cancelled)
        }),
        !asks_for_removal(WaitOutcome::Cancelled),
        end_notes(id, pid, WaitOutcome::Cancelled) == Seq::<NoteView>::empty(),
{
    lemma_next_wf(w, WatchersEvent::Cancel(id));
    lemma_stays_cancelled(w.cancel(id), events, w.live[id.0]);
}

/// Cancelling one watch leaves the others as they are.
pub proof fn law_cancel_is_for_one_watch(w: WatchersView, id: PolicyId, token: usize)
    requires
        w.wf(),
    ensures
        w.cancel(id).is_cancelled(token) <==> w.is_cancelled(token) || (w.live.contains_key(id.0)
            && w.live[id.0] == token),
        w.ended(id).is_cancelled(token) == w.is_cancelled(token),
{
}

/// A policy is watched anew exactly if it has a process and no watcher, and then
/// under a token that no other watch ever had.
pub proof fn law_new_watch(w: WatchersView, id: PolicyId, pid: u32, other: u128)
    requires
        w.wf(),
        w.cancelled.len() < usize::MAX,
    ensures
        is_new_watch(w, id, pid) <==> pid > 0 && !w.live.contains_key(id.0),
        w.with_watch(id).live.contains_key(id.0),
        w.with_watch(id).live[id.0] == w.cancelled.len(),
        w.with_watch(id).cancelled.len() == w.cancelled.len() + 1,
        !w.with_watch(id).is_cancelled(w.with_watch(id).live[id.0]),
        other != id.0 ==> (w.with_watch(id).live.contains_key(other) <==> w.live.contains_key(
            other,
        )) && (w.live.contains_key(other) ==> w.with_watch(id).live[other] == w.live[other]
            && w.live[other] != w.with_watch(id).live[id.0]),
{
}

/// A watch that ends or is cancelled is no more, and the other policies are
/// watched as before.
pub proof fn law_watch_goes_alone(w: WatchersView, id: PolicyId, other: u128)
    ensures
        !w.cancel(id).live.contains_key(id.0),
        !w.ended(id).live.contains_key(id.0),
        other != id.0 ==> (w.cancel(id).live.contains_key(other) <==> w.live.contains_key(other))
            && (w.ended(id).live.contains_key(other) <==> w.live.contains_key(other)),
        other != id.0 && w.live.contains_key(other) ==> w.cancel(id).live[other] == w.live[other]
            && w.ended(id).live[other] == w.live[other],
{
}

/// Only a policy whose process is gone is removed at the end of its watch.
pub proof fn law_removal_at_the_end(outcome: WaitOutcome)
    ensures
        asks_for_removal(outcome) <==> outcome is Exited,
{
}

/// What is noted of a watch: nothing of one that was cancelled, a line of a
/// process that is gone, and a warning and a line of one that could not be opened;
/// then, of the removal, how many filters went, or why it failed.
pub proof fn law_watch_notes(id: PolicyId, pid: u32, code: u32, removed: u32, e: ErrorView)
    ensures
        watcher_name(id) == "policy-watch-"@ + uuid_text(id.0),
        end_notes(id, pid, WaitOutcome::Cancelled).len() == 0,
        end_notes(id, pid, WaitOutcome::Exited) == seq![
            NoteView::Diag(
                "lifetime: sandbox pid="@ + decimal(pid as nat)
                    + " exited \u{2192} auto-RemovePolicy "@ + uuid_text(id.0),
            ),
        ],
        end_notes(id, pid, WaitOutcome::OpenFailed(code)) == seq![
            NoteView::Warn(
                "lifetime watcher: OpenProcess("@ + decimal(pid as nat) + ") failed: code="@
                    + decimal(code as nat) + " \u{2014} policy "@ + uuid_text(id.0)
                    + " will only clean up on explicit RemovePolicy"@,
            ),
            NoteView::Diag(
                "lifetime: OpenProcess("@ + decimal(pid as nat) + ") failed code="@ + decimal(
                    code as nat,
                ) + " for policy "@ + uuid_text(id.0) + " (no auto-cleanup on sandbox crash)"@,
            ),
        ],
        removal_notes(id, Ok(removed)) == seq![
            NoteView::Info(
                "auto-cleanup: policy "@ + uuid_text(id.0) + " removed (filters_removed="@
                    + decimal(removed as nat) + ")"@,
            ),
            NoteView::Diag(
                "lifetime: auto-RemovePolicy "@ + uuid_text(id.0) + " -> filters_removed="@
                    + decimal(removed as nat),
            ),
        ],
        removal_notes(id, Err(e)) == seq![
            NoteView::Warn(
                "auto-cleanup: policy "@ + uuid_text(id.0) + " remove failed: "@ + error_message(e),
            ),
            NoteView::Diag(
                "lifetime: auto-RemovePolicy "@ + uuid_text(id.0) + " failed: "@ + error_message(e),
            ),
        ],
{
}

} // verus!
