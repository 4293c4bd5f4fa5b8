//! Requests and their replies. A request that reaches the filtering engine is
//! answered in two parts: what the engine has to do, and the reply once it is
//! done.

use crate::debug::{default_debug, default_text, rule_debug};
use crate::identity::CallerIdentity;
use crate::lifetime::{
    cancel, is_new_watch, is_watch_of, track, Watch, Watchers, WatchersView,
};
use crate::log::{note, note_views, Note, NoteView};
use crate::policy::{
    plan, policy_refusal, sid_view, Installation, InstallationView, PolicyManager, Removal,
    RemovalView,
};
use crate::proto::{
    error_message, is_random_uuid, rule_views, uuid_text, AddPolicyRequest, AddPolicyResponse,
    DefaultPolicy, ErrorView, GetVersionResponse, PolicyId, RemovePolicyRequest,
    RemovePolicyResponse, Request, Response, ResponseView, Rule, RuleView, ServiceError, IPC_MAJOR,
    IPC_MINOR, MAX_RULES_PER_POLICY, SERVICE_VERSION,
};
use crate::text::{decimal, push_decimal};
use vstd::prelude::*;

verus! {

/// A policy whose filters are to be installed.
#[derive(Debug)]
pub struct PendingAdd {
    pub installation: Installation,
    pub sandbox_pid: u32,
}

/// What a request calls for.
#[derive(Debug)]
pub enum Dispatch {
    /// This reply.
    Reply(Response),
    /// Install these filters, then `finish_add`.
    Install(PendingAdd),
    /// Delete these filters, then `finish_remove`.
    Remove(Removal),
}

/// The line for a call.
pub open spec fn call_line(caller: Seq<char>) -> Seq<char> {
    "ipc: call from user_sid="@ + caller
}

/// The line for a request to add a policy.
pub open spec fn add_line(
    caller: Seq<char>,
    sddl: Seq<char>,
    default: DefaultPolicy,
    rules: nat,
    pid: u32,
) -> Seq<char> {
    "AddPolicy caller_sid="@ + caller + " ac_sid="@ + sddl + " default="@ + default_debug(default)
        + " rules="@ + decimal(rules) + " sandbox_pid="@ + decimal(pid as nat)
}

/// The line for a rule of a policy.
pub open spec fn rule_line(i: int, rule: RuleView) -> Seq<char> {
    "  rule["@ + decimal(i as nat) + "] = "@ + rule_debug(rule)
}

/// The notes on a request to add a policy: the request, then each rule.
pub open spec fn add_notes(
    caller: Seq<char>,
    sddl: Seq<char>,
    default: DefaultPolicy,
    rules: Seq<RuleView>,
    pid: u32,
) -> Seq<NoteView> {
    let line = add_line(caller, sddl, default, rules.len(), pid);
    seq![NoteView::Info(line), NoteView::Diag(line)] + Seq::new(
        rules.len(),
        |i: int| NoteView::Diag(rule_line(i, rules[i])),
    )
}

/// The notes on an operation that failed.
pub open spec fn error_notes(operation: Seq<char>, e: ErrorView) -> Seq<NoteView> {
    seq![
        NoteView::Warn("  -> error: "@ + error_message(e)),
        NoteView::Diag("  -> "@ + operation + " error: "@ + error_message(e)),
    ]
}

/// The notes on a policy that was added.
pub open spec fn added_notes(id: PolicyId, filters: u32) -> Seq<NoteView> {
    let line = "  -> policy_id="@ + uuid_text(id.0) + " filters_installed="@ + decimal(
        filters as nat,
    );
    seq![NoteView::Info(line), NoteView::Diag(line)]
}

/// The notes on a request to remove a policy.
pub open spec fn remove_notes(caller: Seq<char>, id: PolicyId) -> Seq<NoteView> {
    let line = "RemovePolicy caller_sid="@ + caller + " policy_id="@ + uuid_text(id.0);
    seq![NoteView::Info(line), NoteView::Diag(line)]
}

/// The notes on a policy that was removed.
pub open spec fn removed_notes(filters: u32) -> Seq<NoteView> {
    let line = "  -> filters_removed="@ + decimal(filters as nat);
    seq![NoteView::Info(line), NoteView::Diag(line)]
}

/// Leaves the same line for the log and for the diagnostic console.
fn note_both(notes: &mut Vec<Note>, line: String)
    ensures
        note_views(final(notes)@) == note_views(old(notes)@) + seq![
            NoteView::Info(line@),
            NoteView::Diag(line@),
        ],
{
    let copy: String = line.as_str().to_owned();
    note(notes, Note::Info(copy));
    note(notes, Note::Diag(line));
}

fn note_error(notes: &mut Vec<Note>, operation: &str, e: &ServiceError)
    ensures
        note_views(final(notes)@) == note_views(old(notes)@) + error_notes(operation@, e@),
{
    let mut m: String = "  -> error: ".to_owned();
    m.append(e.message().as_str());
    let mut d: String = "  -> ".to_owned();
    d.append(operation);
    d.append(" error: ");
    d.append(e.message().as_str());
    note(notes, Note::Warn(m));
    note(notes, Note::Diag(d));
    assert(note_views(notes@) =~= note_views(old(notes)@) + error_notes(operation@, e@));
}

fn note_rules(notes: &mut Vec<Note>, rules: &Vec<Rule>)
    ensures
        note_views(final(notes)@) == note_views(old(notes)@) + Seq::new(
            rules@.len(),
            |i: int| NoteView::Diag(rule_line(i, rule_views(rules@)[i])),
        ),
{
    let ghost want = Seq::new(
        rules@.len(),
        |i: int| NoteView::Diag(rule_line(i, rule_views(rules@)[i])),
    );
    let ghost before = note_views(notes@);
    let mut i: usize = 0;
    assert(before + want.take(0) =~= before);
    while i < rules.len()
        invariant
            i <= rules.len(),
            want == Seq::new(
                rules@.len(),
                |i: int| NoteView::Diag(rule_line(i, rule_views(rules@)[i])),
            ),
            note_views(notes@) == before + want.take(i as int),
        decreases rules.len() - i,
    {
        let mut line: String = "  rule[".to_owned();
        push_decimal(&mut line, i as u64);
        line.append("] = ");
        line.append(rules[i].debug_text().as_str());
        assert(line@ =~= rule_line(i as int, rule_views(rules@)[i as int]));
        note(notes, Note::Diag(line));
        assert(want.take(i + 1) =~= want.take(i as int).push(want[i as int]));
        assert(note_views(notes@) =~= before + want.take(i + 1));
        i = i + 1;
    }
    assert(want.take(want.len() as int) =~= want);
}

/// The line for a request to add a policy.
fn add_text(req: &AddPolicyRequest, caller_sid: &str) -> (line: String)
    ensures
        line@ == add_line(
            caller_sid@,
            req.ac_sid_sddl@,
            req.default,
            req.rules@.len(),
            req.sandbox_pid,
        ),
{
    let mut line: String = "AddPolicy caller_sid=".to_owned();
    line.append(caller_sid);
    line.append(" ac_sid=");
    line.append(req.ac_sid_sddl.as_str());
    line.append(" default=");
    line.append(default_text(&req.default));
    line.append(" rules=");
    push_decimal(&mut line, req.rules.len() as u64);
    line.append(" sandbox_pid=");
    push_decimal(&mut line, req.sandbox_pid as u64);
    assert(line@ =~= add_line(
        caller_sid@,
        req.ac_sid_sddl@,
        req.default,
        req.rules@.len(),
        req.sandbox_pid,
    ));
    line
}

/// What a request to add a policy calls for.
fn handle_add_impl(
    manager: &PolicyManager,
    req: &AddPolicyRequest,
    converted: Option<Vec<u8>>,
    caller_sid: &str,
    notes: &mut Vec<Note>,
) -> (r: Dispatch)
    ensures
        add_dispatched(
            manager@.dom().len(),
            *req,
            sid_view(converted),
            r,
        ),
        note_views(final(notes)@) == note_views(old(notes)@) + add_request_notes(
            manager@.dom().len(),
            *req,
            sid_view(converted),
            caller_sid@,
        ),
{
    let ghost active = manager@.dom().len();
    let ghost sid = sid_view(converted);
    let line: String = add_text(req, caller_sid);
    if req.rules.len() > MAX_RULES_PER_POLICY {
        note(notes, Note::Diag(line));
        assert(note_views(notes@) =~= note_views(old(notes)@) + add_request_notes(
            active,
            *req,
            sid,
            caller_sid@,
        ));
        return Dispatch::Reply(
            Response::Error(
                ServiceError::TooManyRules {
                    max: MAX_RULES_PER_POLICY as u32,
                    got: req.rules.len() as u32,
                },
            ),
        );
    }
    note_both(notes, line);
    note_rules(notes, &req.rules);
    let ghost asked = note_views(notes@);
    assert(asked =~= note_views(old(notes)@) + add_notes(
        caller_sid@,
        req.ac_sid_sddl@,
        req.default,
        rule_views(req.rules@),
        req.sandbox_pid,
    ));
    match manager.add_policy(
        req.ac_sid_sddl.as_str(),
        converted,
        &req.default,
        req.rules.as_slice(),
    ) {
        Ok(installation) => {
            assert(note_views(notes@) =~= note_views(old(notes)@) + add_request_notes(
                active,
                *req,
                sid,
                caller_sid@,
            ));
            Dispatch::Install(PendingAdd { installation, sandbox_pid: req.sandbox_pid })
        },
        Err(e) => {
            note_error(notes, "AddPolicy", &e);
            assert(note_views(notes@) =~= note_views(old(notes)@) + add_request_notes(
                active,
                *req,
                sid,
                caller_sid@,
            ));
            Dispatch::Reply(Response::Error(e))
        },
    }
}

/// Why a request to add a policy is refused at once, if it is: too many rules,
/// or what the policy itself is refused for.
pub open spec fn add_refusal(
    active: nat,
    req: AddPolicyRequest,
    converted: Option<Seq<u8>>,
) -> Option<ErrorView> {
    if req.rules@.len() > MAX_RULES_PER_POLICY {
        Some(
            ErrorView::TooManyRules {
                max: MAX_RULES_PER_POLICY as u32,
                got: req.rules@.len() as u32,
            },
        )
    } else {
        policy_refusal(active, req.ac_sid_sddl@, converted, rule_views(req.rules@))
    }
}

/// What a request to add a policy calls for: the error if it is refused, else
/// the installation of all its filters under a random identifier.
pub open spec fn add_dispatched(
    active: nat,
    req: AddPolicyRequest,
    converted: Option<Seq<u8>>,
    r: Dispatch,
) -> bool {
    match add_refusal(active, req, converted) {
        Some(e) => r is Reply && r->Reply_0@ == ResponseView::Error(e),
        None => {
            &&& r is Install
            &&& r->Install_0.sandbox_pid == req.sandbox_pid
            &&& is_random_uuid(r->Install_0.installation@.id.0)
            &&& r->Install_0.installation@ == (InstallationView {
                id: r->Install_0.installation@.id,
                plan: plan(
                    r->Install_0.installation@.id,
                    converted->0,
                    req.default,
                    rule_views(req.rules@),
                ),
                installed: Seq::empty(),
                failure: None,
                undone: 0,
            })
        },
    }
}

/// The notes on a request to add a policy. Every request leaves a line for the
/// diagnostic console; of one with too many rules nothing else is told.
pub open spec fn add_request_notes(
    active: nat,
    req: AddPolicyRequest,
    converted: Option<Seq<u8>>,
    caller: Seq<char>,
) -> Seq<NoteView> {
    if req.rules@.len() > MAX_RULES_PER_POLICY {
        seq![
            NoteView::Diag(
                add_line(
                    caller,
                    req.ac_sid_sddl@,
                    req.default,
                    req.rules@.len(),
                    req.sandbox_pid,
                ),
            ),
        ]
    } else {
        let asked = add_notes(
            caller,
            req.ac_sid_sddl@,
            req.default,
            rule_views(req.rules@),
            req.sandbox_pid,
        );
        match add_refusal(active, req, converted) {
            Some(e) => asked + error_notes("AddPolicy"@, e),
            None => asked,
        }
    }
}

/// The reply to a request to add a policy, once its installation is over, and
/// the watcher to start, if one is. A policy that was installed is
/// active and watched; of one that was not, nothing is left.
pub fn finish_add(
    pending: PendingAdd,
    manager: &mut PolicyManager,
    watchers: &mut Watchers,
    notes: &mut Vec<Note>,
) -> (r: (Response, Option<Watch>))
    requires
        pending.installation@.step() is Commit || pending.installation@.step() is Abort,
    ensures
        r.0@ is AddPolicy <==> pending.installation@.failure is None,
        r.0@ is Error <==> pending.installation@.failure is Some,
        ({
            let t = pending.installation@;
            let count = t.plan.len() as u32;
            if t.step() is Commit {
                &&& r.0@ == (ResponseView::AddPolicy {
                    policy_id: t.id,
                    filters_installed: count,
                })
                &&& t.installed.len() == t.plan.len()
                &&& final(manager)@ == old(manager)@.insert(t.id.0, t.installed)
                &&& note_views(final(notes)@) == note_views(old(notes)@) + added_notes(t.id, count)
                &&& if is_new_watch(old(watchers)@, t.id, pending.sandbox_pid) {
                    r.1 is Some && is_watch_of((r.1)->0, old(watchers)@, t.id) && final(watchers)@
                        == old(watchers)@.with_watch(t.id)
                } else {
                    r.1 is None && final(watchers)@ == old(watchers)@
                }
            } else {
                &&& r.0@ == ResponseView::Error(t.failure->0)
                &&& r.1 is None
                &&& final(manager)@ == old(manager)@
                &&& final(watchers)@ == old(watchers)@
                &&& note_views(final(notes)@) == note_views(old(notes)@) + error_notes(
                    "AddPolicy"@,
                    t.failure->0,
                )
            }
        }),
        final(manager).spec_engine() == old(manager).spec_engine(),
{
    let PendingAdd { installation, sandbox_pid } = pending;
    match manager.finish(installation) {
        Ok((policy_id, filters_installed)) => {
            let mut line: String = "  -> policy_id=".to_owned();
            line.append(policy_id.text().as_str());
            line.append(" filters_installed=");
            push_decimal(&mut line, filters_installed as u64);
            assert(NoteView::Info(line@) == added_notes(policy_id, filters_installed)[0]);
            note_both(notes, line);
            let start: Option<Watch> = track(watchers, policy_id, sandbox_pid);
            (Response::AddPolicy(AddPolicyResponse { policy_id, filters_installed }), start)
        },
        Err(e) => {
            note_error(notes, "AddPolicy", &e);
            (Response::Error(e), None)
        },
    }
}

/// The reply to a request to remove a policy that is not active. If it was not
/// watched either, it has gone with its sandbox, and that is no error.
pub open spec fn absent_reply(watched: bool, id: PolicyId) -> ResponseView {
    if watched {
        ResponseView::Error(ErrorView::UnknownPolicy(id))
    } else {
        ResponseView::RemovePolicy { filters_removed: 0 }
    }
}

/// The notes on a request to remove a policy.
pub open spec fn remove_request_notes(
    active: bool,
    watched: bool,
    id: PolicyId,
    caller: Seq<char>,
) -> Seq<NoteView> {
    let asked = remove_notes(caller, id);
    if active {
        asked
    } else if watched {
        asked + error_notes("RemovePolicy"@, ErrorView::UnknownPolicy(id))
    } else {
        asked.push(NoteView::Diag("  -> already removed (auto-cleanup raced explicit call)"@))
    }
}

/// What a request to remove a policy calls for. It is not watched any more in
/// any case.
fn handle_remove_impl(
    manager: &mut PolicyManager,
    req: &RemovePolicyRequest,
    caller_sid: &str,
    watchers: &mut Watchers,
    notes: &mut Vec<Note>,
) -> (r: Dispatch)
    ensures
        remove_dispatched(old(manager)@, old(watchers)@, req.policy_id, r),
        final(manager)@ == old(manager)@.remove(req.policy_id.0),
        final(manager).spec_engine() == old(manager).spec_engine(),
        final(watchers)@ == old(watchers)@.cancel(req.policy_id),
        note_views(final(notes)@) == note_views(old(notes)@) + remove_request_notes(
            old(manager)@.contains_key(req.policy_id.0),
            old(watchers)@.live.contains_key(req.policy_id.0),
            req.policy_id,
            caller_sid@,
        ),
{
    let policy_id: PolicyId = req.policy_id;
    let mut line: String = "RemovePolicy caller_sid=".to_owned();
    line.append(caller_sid);
    line.append(" policy_id=");
    line.append(policy_id.text().as_str());
    assert(NoteView::Info(line@) == remove_notes(caller_sid@, policy_id)[0]);
    note_both(notes, line);
    assert(note_views(notes@) =~= note_views(old(notes)@) + remove_notes(caller_sid@, policy_id));
    let was_tracked: bool = cancel(watchers, policy_id);
    match manager.remove_policy(policy_id) {
        Ok(removal) => Dispatch::Remove(removal),
        Err(e) => {
            if was_tracked {
                note_error(notes, "RemovePolicy", &e);
                assert(note_views(notes@) =~= note_views(old(notes)@) + remove_request_notes(
                    false,
                    true,
                    policy_id,
                    caller_sid@,
                ));
                Dispatch::Reply(Response::Error(e))
            } else {
                note(
                    notes,
                    Note::Diag(
                        "  -> already removed (auto-cleanup raced explicit call)".to_owned(),
                    ),
                );
                assert(note_views(notes@) =~= note_views(old(notes)@) + remove_request_notes(
                    false,
                    false,
                    policy_id,
                    caller_sid@,
                ));
                Dispatch::Reply(Response::RemovePolicy(RemovePolicyResponse { filters_removed: 0 }))
            }
        },
    }
}

/// What a request to remove a policy calls for: the deletion of its filters if
/// it is active, else a reply.
pub open spec fn remove_dispatched(
    policies: Map<u128, Seq<u64>>,
    watched: WatchersView,
    id: PolicyId,
    r: Dispatch,
) -> bool {
    if policies.contains_key(id.0) {
        r is Remove && r->Remove_0@ == (RemovalView {
            ids: policies[id.0],
            next: 0,
            removed: 0,
        })
    } else {
        r is Reply && r->Reply_0@ == absent_reply(watched.live.contains_key(id.0), id)
    }
}

/// The reply to a request to remove a policy, once its filters are deleted.
pub fn finish_remove(removal: &Removal, notes: &mut Vec<Note>) -> (r: Response)
    requires
        removal@.step() is None,
    ensures
        r@ == (ResponseView::RemovePolicy { filters_removed: removal@.removed as u32 }),
        note_views(final(notes)@) == note_views(old(notes)@) + removed_notes(
            removal@.removed as u32,
        ),
{
    let filters_removed: u32 = removal.removed();
    let mut line: String = "  -> filters_removed=".to_owned();
    push_decimal(&mut line, filters_removed as u64);
    note_both(notes, line);
    Response::RemovePolicy(RemovePolicyResponse { filters_removed })
}

/// What a request calls for. `converted` is the SID of an `AddPolicy` request
/// in binary form, if its text could be converted.
pub fn dispatch_request(
    req: Request,
    converted: Option<Vec<u8>>,
    caller: &CallerIdentity,
    manager: &mut PolicyManager,
    watchers: &mut Watchers,
    notes: &mut Vec<Note>,
) -> (r: Dispatch)
    ensures
        final(manager).spec_engine() == old(manager).spec_engine(),
        req is GetVersion ==> r->Reply_0@ == (ResponseView::Version {
            service_version: "0.7.0"@,
            ipc_major: 0,
            ipc_minor: 1,
        }),
        r is Remove <==> req is RemovePolicy && old(manager)@.contains_key(
            req->RemovePolicy_0.policy_id.0,
        ),
        r is Install ==> req is AddPolicy,
        match req {
            Request::GetVersion => r is Reply && r->Reply_0@ == (ResponseView::Version {
                service_version: SERVICE_VERSION@,
                ipc_major: IPC_MAJOR,
                ipc_minor: IPC_MINOR,
            }) && final(manager)@ == old(manager)@ && final(watchers)@ == old(watchers)@
                && note_views(final(notes)@) == note_views(old(notes)@).push(
                NoteView::Diag(call_line(caller.user_sid@)),
            ),
            Request::AddPolicy(a) => {
                let sid = sid_view(converted);
                &&& add_dispatched(old(manager)@.dom().len(), a, sid, r)
                &&& final(manager)@ == old(manager)@
                &&& final(watchers)@ == old(watchers)@
                &&& note_views(final(notes)@) == note_views(old(notes)@).push(
                    NoteView::Diag(call_line(caller.user_sid@)),
                ) + add_request_notes(old(manager)@.dom().len(), a, sid, caller.user_sid@)
            },
            Request::RemovePolicy(d) => {
                &&& remove_dispatched(old(manager)@, old(watchers)@, d.policy_id, r)
                &&& final(manager)@ == old(manager)@.remove(d.policy_id.0)
                &&& final(watchers)@ == old(watchers)@.cancel(d.policy_id)
                &&& note_views(final(notes)@) == note_views(old(notes)@).push(
                    NoteView::Diag(call_line(caller.user_sid@)),
                ) + remove_request_notes(
                    old(manager)@.contains_key(d.policy_id.0),
                    old(watchers)@.live.contains_key(d.policy_id.0),
                    d.policy_id,
                    caller.user_sid@,
                )
            },
        },
{
    let mut line: String = "ipc: call from user_sid=".to_owned();
    line.append(caller.user_sid.as_str());
    note(notes, Note::Diag(line));
    match req {
        Request::GetVersion => Dispatch::Reply(
            Response::Version(
                GetVersionResponse {
                    service_version: SERVICE_VERSION.to_owned(),
                    ipc_major: IPC_MAJOR,
                    ipc_minor: IPC_MINOR,
                },
            ),
        ),
        Request::AddPolicy(a) => handle_add_impl(
            manager,
            &a,
            converted,
            caller.user_sid.as_str(),
            notes,
        ),
        Request::RemovePolicy(d) => handle_remove_impl(
            manager,
            &d,
            caller.user_sid.as_str(),
            watchers,
            notes,
        ),
    }
}

/// To remove a policy again is no error: the second request is answered with
/// no filters removed.
pub proof fn law_second_removal_is_no_error(
    policies: Map<u128, Seq<u64>>,
    watched: WatchersView,
    id: PolicyId,
    r: Dispatch,
)
    requires
        remove_dispatched(policies.remove(id.0), watched.cancel(id), id, r),
    ensures
        r is Reply,
        r->Reply_0@ == (ResponseView::RemovePolicy { filters_removed: 0 }),
{
}

/// A request with more than 256 rules is refused for that alone, and told both
/// numbers; one with fewer is refused for what its policy is refused for.
pub proof fn law_too_many_rules(active: nat, req: AddPolicyRequest, converted: Option<Seq<u8>>)
    ensures
        req.rules@.len() > 256 ==> add_refusal(active, req, converted) == Some(
            ErrorView::TooManyRules { max: 256, got: req.rules@.len() as u32 },
        ),
        req.rules@.len() <= 256 ==> add_refusal(active, req, converted) == policy_refusal(
            active,
            req.ac_sid_sddl@,
            converted,
            rule_views(req.rules@),
        ),
{
}

/// A request to add a policy is either refused with the reason, or it leads to
/// the installation of the whole policy that it describes, of which nothing is
/// installed yet.
pub proof fn law_add_is_refused_or_begun(
    active: nat,
    req: AddPolicyRequest,
    converted: Option<Seq<u8>>,
    r: Dispatch,
)
    requires
        add_dispatched(active, req, converted, r),
    ensures
        r is Install || r is Reply,
        r is Install <==> add_refusal(active, req, converted) is None,
        r is Reply ==> r->Reply_0@ == ResponseView::Error(add_refusal(active, req, converted)->0),
        r is Install ==> {
            let t = r->Install_0.installation@;
            &&& r->Install_0.sandbox_pid == req.sandbox_pid
            &&& t.plan == plan(t.id, converted->0, req.default, rule_views(req.rules@))
            &&& t.installed.len() == 0
            &&& t.failure is None
            &&& t.undone == 0
        },
{
}

/// A request to remove a policy that is active leads to the deletion of all its
/// filters; of one that is not, it is an error only if it was still watched.
pub proof fn law_removal_of_a_policy(
    policies: Map<u128, Seq<u64>>,
    watched: WatchersView,
    id: PolicyId,
    r: Dispatch,
)
    requires
        remove_dispatched(policies, watched, id, r),
    ensures
        r is Remove <==> policies.contains_key(id.0),
        r is Remove ==> r->Remove_0@.ids == policies[id.0] && r->Remove_0@.next == 0
            && r->Remove_0@.removed == 0,
        !policies.contains_key(id.0) && watched.live.contains_key(id.0) ==> r is Reply
            && r->Reply_0@ == ResponseView::Error(ErrorView::UnknownPolicy(id)),
        !policies.contains_key(id.0) && !watched.live.contains_key(id.0) ==> r is Reply
            && r->Reply_0@ == (ResponseView::RemovePolicy { filters_removed: 0 }),
{
}

/// What is noted of a request to add a policy: its line, once for the log and
/// once for the diagnostic console, and one line for each rule; then why it was
/// refused, if it was. One with more than 256 rules leaves its line for the
/// console alone.
pub proof fn law_notes_on_an_add(
    active: nat,
    req: AddPolicyRequest,
    converted: Option<Seq<u8>>,
    caller: Seq<char>,
    i: int,
)
    ensures
        ({
            let notes = add_request_notes(active, req, converted, caller);
            let n = req.rules@.len();
            let line = "AddPolicy caller_sid="@ + caller + " ac_sid="@ + req.ac_sid_sddl@
                + " default="@ + default_debug(req.default) + " rules="@ + decimal(n)
                + " sandbox_pid="@ + decimal(req.sandbox_pid as nat);
            let e = add_refusal(active, req, converted)->0;
            &&& n > 256 ==> notes == seq![NoteView::Diag(line)]
            &&& n <= 256 ==> notes[0] == NoteView::Info(line) && notes[1] == NoteView::Diag(line)
            &&& n <= 256 && 0 <= i < n ==> notes[2 + i] == NoteView::Diag(
                "  rule["@ + decimal(i as nat) + "] = "@ + rule_debug(rule_views(req.rules@)[i]),
            )
            &&& n <= 256 && add_refusal(active, req, converted) is None ==> notes.len() == 2 + n
            &&& n <= 256 && add_refusal(active, req, converted) is Some ==> {
                &&& notes.len() == 4 + n
                &&& notes[2 + n as int] == NoteView::Warn("  -> error: "@ + error_message(e))
                &&& notes[3 + n as int] == NoteView::Diag(
                    "  -> "@ + "AddPolicy"@ + " error: "@ + error_message(e),
                )
            }
        }),
{
}

/// What is noted of a request to remove a policy: its line twice, and, where the
/// policy is not active, why nothing is removed.
pub proof fn law_notes_on_a_removal(active: bool, watched: bool, id: PolicyId, caller: Seq<char>)
    ensures
        ({
            let notes = remove_request_notes(active, watched, id, caller);
            let line = "RemovePolicy caller_sid="@ + caller + " policy_id="@ + uuid_text(id.0);
            let e = error_message(ErrorView::UnknownPolicy(id));
            &&& notes[0] == NoteView::Info(line)
            &&& notes[1] == NoteView::Diag(line)
            &&& active ==> notes.len() == 2
            &&& !active && watched ==> notes.len() == 4 && notes[2] == NoteView::Warn(
                "  -> error: "@ + e,
            ) && notes[3] == NoteView::Diag("  -> "@ + "RemovePolicy"@ + " error: "@ + e)
            &&& !active && !watched ==> notes.len() == 3 && notes[2] == NoteView::Diag(
                "  -> already removed (auto-cleanup raced explicit call)"@,
            )
        }),
{
}

/// What is noted of a policy that was added or removed: one line, for the log
/// and for the diagnostic console.
pub proof fn law_notes_on_an_end(id: PolicyId, filters: u32, caller: Seq<char>)
    ensures
        added_notes(id, filters) == seq![
            NoteView::Info(
                "  -> policy_id="@ + uuid_text(id.0) + " filters_installed="@ + decimal(
                    filters as nat,
                ),
            ),
            NoteView::Diag(
                "  -> policy_id="@ + uuid_text(id.0) + " filters_installed="@ + decimal(
                    filters as nat,
                ),
            ),
        ],
        removed_notes(filters) == seq![
            NoteView::Info("  -> filters_removed="@ + decimal(filters as nat)),
            NoteView::Diag("  -> filters_removed="@ + decimal(filters as nat)),
        ],
        call_line(caller) == "ipc: call from user_sid="@ + caller,
{
}

/// What is noted of an operation that failed: a warning, and a line for the
/// diagnostic console that also names the operation.
pub proof fn law_notes_on_an_error(operation: Seq<char>, e: ErrorView)
    ensures
        error_notes(operation, e) == seq![
            NoteView::Warn("  -> error: "@ + error_message(e)),
            NoteView::Diag("  -> "@ + operation + " error: "@ + error_message(e)),
        ],
{
}

} // verus!
