use mxc_service::authz::{
    enforce, verify_image, AuthzVerdict, ImageCheck, ImageEvent, RootProbe,
};
use mxc_service::client::{
    service_install_status, Client, ClientError, ConnectFailure, ScmProbe, ServiceInstallStatus,
};
use mxc_service::identity::{
    capture_lrpc, CallerIdentity, Capture, CaptureEvent, TokenEvent, TokenQuery,
};
use mxc_service::ipc::{dispatch_request, finish_add, finish_remove, Dispatch};
use mxc_service::lifetime::{
    cancel, end_watch, note_removal, track, watch, watchers, WaitOutcome, WatchEvent, WatchState,
};
use mxc_service::listener::{port, response};
use mxc_service::log::Note;
use mxc_service::policy::{InstallStep, Opening, PolicyManager};
use mxc_service::proto::{
    AddPolicyRequest, AddPolicyResponse, DefaultPolicy, GetVersionResponse, PolicyId,
    RemovePolicyRequest, RemovePolicyResponse, Request, Response, Rule, RuleVerb, ServiceError,
    Transport,
};
use mxc_service::rpc::{
    decoded_reply, note_startup, reply_bytes, request_bytes, start, Binding, Exchange, ExchangeEvent, RpcServer,
    Startup,
};
use mxc_service::service::{
    console_note, console_open_error, dispatcher_error, exit_note, handle_control, interrupt_note,
    run_mode, running_note, Control, Flags, RunMode, ServiceStep, State,
};

#[test]
fn cancel_is_noop_for_unknown_policy() {
    let id = PolicyId::new_random();
    let mut w = watchers();
    assert!(!cancel(&mut w, id));
}

#[test]
fn track_is_idempotent_and_needs_a_process() {
    let mut w = watchers();
    let id = PolicyId(1);
    assert_eq!(track(&mut w, id, 0), None);
    let first = track(&mut w, id, 10).unwrap();
    assert_eq!(first.name, "policy-watch-00000000-0000-0000-0000-000000000001");
    assert_eq!(track(&mut w, id, 11), None);
    assert!(!w.is_cancelled(first.token));
    assert!(cancel(&mut w, id));
    assert!(w.is_cancelled(first.token));
    assert!(!cancel(&mut w, id));
}

#[test]
fn cancelled_watch_stays_cancelled() {
    let mut w = watchers();
    let id = PolicyId(1);
    let first = track(&mut w, id, 10).unwrap();
    let other = track(&mut w, PolicyId(2), 10).unwrap();
    assert!(cancel(&mut w, id));
    let second = track(&mut w, id, 10).unwrap();
    assert!(w.is_cancelled(first.token));
    assert!(!w.is_cancelled(second.token));
    assert!(!w.is_cancelled(other.token));
    assert_eq!(
        WatchState::Waiting.look(&w, first.token),
        WatchState::Ended(WaitOutcome::Cancelled)
    );
    assert_eq!(
        WatchState::Polling.look(&w, first.token),
        WatchState::Ended(WaitOutcome::Cancelled)
    );
    assert_eq!(WatchState::OpenToPoll.look(&w, first.token), WatchState::OpenToPoll);
    assert_eq!(WatchState::Waiting.look(&w, second.token), WatchState::Waiting);
    let mut notes = Vec::new();
    assert!(!end_watch(&mut w, id, 10, WaitOutcome::Cancelled, &mut notes));
    assert!(!w.is_cancelled(second.token));
}

fn after(events: &[WatchEvent]) -> WatchState {
    let mut s = watch();
    for e in events {
        s = s.next(*e);
    }
    s
}

#[test]
fn watch_waits_or_polls() {
    let exited = WatchState::Ended(WaitOutcome::Exited);
    let cancelled = WatchState::Ended(WaitOutcome::Cancelled);
    assert_eq!(after(&[WatchEvent::Opened, WatchEvent::Waited(258), WatchEvent::Waited(258)]), WatchState::Waiting);
    assert_eq!(after(&[WatchEvent::Opened, WatchEvent::Waited(0)]), exited);
    assert_eq!(after(&[WatchEvent::Opened, WatchEvent::Waited(0xffff_ffff)]), exited);
    assert_eq!(after(&[WatchEvent::Opened, WatchEvent::Waited(258), WatchEvent::Cancelled]), cancelled);
    assert_eq!(after(&[WatchEvent::OpenedInvalid]), WatchState::OpenToPoll);
    assert_eq!(after(&[WatchEvent::OpenError(5), WatchEvent::Opened, WatchEvent::ExitCode(259)]), WatchState::Polling);
    assert_eq!(after(&[WatchEvent::OpenError(0x8007_0005), WatchEvent::Opened, WatchEvent::ExitCode(0)]), exited);
    assert_eq!(after(&[WatchEvent::OpenError(5), WatchEvent::Opened, WatchEvent::NoExitCode]), exited);
    assert_eq!(after(&[WatchEvent::OpenError(5), WatchEvent::Opened, WatchEvent::Cancelled]), cancelled);
    assert_eq!(after(&[WatchEvent::OpenError(5), WatchEvent::OpenError(87)]), exited);
    assert_eq!(after(&[WatchEvent::OpenError(5), WatchEvent::OpenedInvalid]), exited);
    assert_eq!(
        after(&[WatchEvent::OpenError(87)]),
        WatchState::Ended(WaitOutcome::OpenFailed(87))
    );
    assert_eq!(after(&[WatchEvent::Opened, WatchEvent::Waited(0), WatchEvent::Cancelled, WatchEvent::Opened]), exited);
}

#[test]
fn only_an_exit_removes_the_policy() {
    let id = PolicyId(1);
    let mut w = watchers();
    track(&mut w, id, 10);
    let mut notes = Vec::new();
    assert!(!end_watch(&mut w, id, 10, WaitOutcome::Cancelled, &mut notes));
    assert!(notes.is_empty());
    assert!(!cancel(&mut w, id));
    assert!(end_watch(&mut w, id, 10, WaitOutcome::Exited, &mut notes));
    assert!(!end_watch(&mut w, id, 10, WaitOutcome::OpenFailed(87), &mut notes));
    note_removal(id, &Ok(3), &mut notes);
    note_removal(id, &Err(ServiceError::UnknownPolicy(id)), &mut notes);
    let p = "00000000-0000-0000-0000-000000000001";
    assert_eq!(
        notes,
        vec![
            Note::Diag(format!("lifetime: sandbox pid=10 exited → auto-RemovePolicy {p}")),
            Note::Warn(format!(
                "lifetime watcher: OpenProcess(10) failed: code=87 — policy {p} will only clean up on explicit RemovePolicy"
            )),
            Note::Diag(format!(
                "lifetime: OpenProcess(10) failed code=87 for policy {p} (no auto-cleanup on sandbox crash)"
            )),
            Note::Info(format!("auto-cleanup: policy {p} removed (filters_removed=3)")),
            Note::Diag(format!("lifetime: auto-RemovePolicy {p} -> filters_removed=3")),
            Note::Warn(format!("auto-cleanup: policy {p} remove failed: unknown policy id: {p}")),
            Note::Diag(format!("lifetime: auto-RemovePolicy {p} failed: unknown policy id: {p}")),
        ]
    );
}

fn manager() -> PolicyManager {
    match PolicyManager::open().answered(0, 7).answered(0, 0).answered(0, 0) {
        Opening::Ready(m) => m,
        other => panic!("{other:?}"),
    }
}

fn caller() -> CallerIdentity {
    CallerIdentity { user_sid: "S-1-5-21-1".to_string() }
}

fn add_request(rules: Vec<Rule>) -> AddPolicyRequest {
    AddPolicyRequest {
        ac_sid_sddl: "S-1-15-2-9".into(),
        default: DefaultPolicy::Block,
        rules,
        sandbox_pid: 1234,
    }
}

fn any_rule() -> Rule {
    Rule {
        verb: RuleVerb::Allow,
        transport: Transport::Any,
        address: None,
        prefix_length: None,
        port: None,
    }
}

#[test]
fn version_request_is_answered_at_once() {
    let mut m = manager();
    let mut w = watchers();
    let mut notes = Vec::new();
    match dispatch_request(Request::GetVersion, None, &caller(), &mut m, &mut w, &mut notes) {
        Dispatch::Reply(Response::Version(v)) => {
            assert_eq!((v.service_version.as_str(), v.ipc_major, v.ipc_minor), ("0.7.0", 0, 1));
        }
        other => panic!("{other:?}"),
    }
    assert_eq!(notes, vec![Note::Diag("ipc: call from user_sid=S-1-5-21-1".into())]);
}

#[test]
fn policy_is_added_watched_and_removed() {
    let mut m = manager();
    let mut w = watchers();
    let mut notes = Vec::new();
    let req = Request::AddPolicy(add_request(vec![any_rule()]));
    let mut pending = match dispatch_request(req, Some(vec![1]), &caller(), &mut m, &mut w, &mut notes) {
        Dispatch::Install(p) => p,
        other => panic!("{other:?}"),
    };
    let line = "AddPolicy caller_sid=S-1-5-21-1 ac_sid=S-1-15-2-9 default=Block rules=1 sandbox_pid=1234";
    assert_eq!(
        notes,
        vec![
            Note::Diag("ipc: call from user_sid=S-1-5-21-1".into()),
            Note::Info(line.into()),
            Note::Diag(line.into()),
            Note::Diag("  rule[0] = Rule { verb: Allow, transport: Any, address: None, prefix_length: None, port: None }".into()),
        ]
    );
    notes.clear();
    let mut next = 20;
    while pending.installation.step() == InstallStep::Install {
        next += 1;
        pending.installation.answered(0, next);
    }
    let (reply, started) = finish_add(pending, &mut m, &mut w, &mut notes);
    let id = match reply {
        Response::AddPolicy(AddPolicyResponse { policy_id, filters_installed: 4 }) => policy_id,
        other => panic!("{other:?}"),
    };
    let watch = started.unwrap();
    assert_eq!(watch.name, format!("policy-watch-{}", id.text()));
    let line = format!("  -> policy_id={} filters_installed=4", id.text());
    assert_eq!(notes, vec![Note::Info(line.clone()), Note::Diag(line)]);
    assert!(!w.is_cancelled(watch.token));
    assert_eq!(m.active(), 1);
    notes.clear();

    let req = || Request::RemovePolicy(RemovePolicyRequest { policy_id: id });
    let mut removal = match dispatch_request(req(), None, &caller(), &mut m, &mut w, &mut notes) {
        Dispatch::Remove(r) => r,
        other => panic!("{other:?}"),
    };
    assert!(w.is_cancelled(watch.token));
    let mut ids = Vec::new();
    while let Some(f) = removal.step() {
        ids.push(f);
        removal.answered(0);
    }
    assert_eq!(ids, vec![21, 22, 23, 24]);
    assert!(matches!(
        finish_remove(&removal, &mut notes),
        Response::RemovePolicy(RemovePolicyResponse { filters_removed: 4 })
    ));
    assert_eq!(notes[notes.len() - 1], Note::Diag("  -> filters_removed=4".into()));
    notes.clear();

    match dispatch_request(req(), None, &caller(), &mut m, &mut w, &mut notes) {
        Dispatch::Reply(Response::RemovePolicy(r)) => assert_eq!(r.filters_removed, 0),
        other => panic!("{other:?}"),
    }
    assert_eq!(
        notes[notes.len() - 1],
        Note::Diag("  -> already removed (auto-cleanup raced explicit call)".into())
    );
}

#[test]
fn watched_policy_without_filters_is_an_error() {
    let mut m = manager();
    let mut w = watchers();
    let mut notes = Vec::new();
    let id = PolicyId(8);
    track(&mut w, id, 3);
    let req = Request::RemovePolicy(RemovePolicyRequest { policy_id: id });
    match dispatch_request(req, None, &caller(), &mut m, &mut w, &mut notes) {
        Dispatch::Reply(Response::Error(ServiceError::UnknownPolicy(p))) => assert_eq!(p, id),
        other => panic!("{other:?}"),
    }
    assert_eq!(
        notes[notes.len() - 1],
        Note::Diag("  -> RemovePolicy error: unknown policy id: 00000000-0000-0000-0000-000000000008".into())
    );
}

#[test]
fn too_many_rules_are_refused() {
    let mut m = manager();
    let mut w = watchers();
    let mut notes = Vec::new();
    let many = (0..257).map(|_| any_rule()).collect();
    let req = Request::AddPolicy(add_request(many));
    match dispatch_request(req, Some(vec![1]), &caller(), &mut m, &mut w, &mut notes) {
        Dispatch::Reply(Response::Error(ServiceError::TooManyRules { max: 256, got: 257 })) => {}
        other => panic!("{other:?}"),
    }
    assert_eq!(
        notes,
        vec![
            Note::Diag("ipc: call from user_sid=S-1-5-21-1".into()),
            Note::Diag(
                "AddPolicy caller_sid=S-1-5-21-1 ac_sid=S-1-15-2-9 default=Block rules=257 sandbox_pid=1234"
                    .into()
            ),
        ]
    );
    let most = (0..256).map(|_| any_rule()).collect();
    let req = Request::AddPolicy(add_request(most));
    assert!(matches!(
        dispatch_request(req, Some(vec![1]), &caller(), &mut m, &mut w, &mut notes),
        Dispatch::Install(_)
    ));
}

#[test]
fn refused_and_aborted_policies_are_reported() {
    let mut m = manager();
    let mut w = watchers();
    let mut notes = Vec::new();
    let req = Request::AddPolicy(add_request(vec![]));
    match dispatch_request(req, None, &caller(), &mut m, &mut w, &mut notes) {
        Dispatch::Reply(Response::Error(ServiceError::InvalidAcSid(s))) => {
            assert_eq!(s, "S-1-15-2-9");
        }
        other => panic!("{other:?}"),
    }
    assert_eq!(
        notes[notes.len() - 2..],
        [
            Note::Warn("  -> error: invalid AppContainer SID: S-1-15-2-9".into()),
            Note::Diag("  -> AddPolicy error: invalid AppContainer SID: S-1-15-2-9".into()),
        ]
    );
    let req = Request::AddPolicy(add_request(vec![]));
    let mut pending = match dispatch_request(req, Some(vec![1]), &caller(), &mut m, &mut w, &mut notes) {
        Dispatch::Install(p) => p,
        other => panic!("{other:?}"),
    };
    pending.installation.answered(5, 0);
    let (reply, started) = finish_add(pending, &mut m, &mut w, &mut notes);
    assert!(matches!(reply, Response::Error(ServiceError::WfpFailure { .. })));
    assert_eq!(started, None);
    assert_eq!(m.active(), 0);
}

#[test]
fn verdicts() {
    match verify_image(Err(2), -2146762496, None) {
        AuthzVerdict::Indeterminate(m) => {
            assert_eq!(m, "failed to open the binary: Win32 0x00000002");
        }
        other => panic!("{other:?}"),
    }
    assert!(matches!(
        verify_image(Err(5), 0, Some(RootProbe::PolicyStatus(0))),
        AuthzVerdict::Indeterminate(_)
    ));
    assert!(matches!(
        verify_image(Ok(()), -2146762496, None),
        AuthzVerdict::NotSigned(0x800b_0100)
    ));
    let v = |p| verify_image(Ok(()), 0, Some(p));
    assert!(v(RootProbe::PolicyStatus(0)).is_trusted());
    assert!(matches!(v(RootProbe::PolicyStatus(1)), AuthzVerdict::NotMicrosoftSigned));
    for (p, want) in [
        (RootProbe::NoProviderData, "WTHelperProvDataFromStateData returned null"),
        (RootProbe::NoSigner, "WTHelperGetProvSignerFromChain returned null"),
        (RootProbe::NoChain, "signer has null pChainContext"),
        (
            RootProbe::PolicyCallFailed(0x57),
            "CertVerifyCertificateChainPolicy call failed: gle=0x00000057",
        ),
    ] {
        match v(p) {
            AuthzVerdict::Indeterminate(s) => assert_eq!(s, want),
            other => panic!("{other:?}"),
        }
    }
}

#[test]
fn release_builds_enforce_trust() {
    let trusted = AuthzVerdict::Trusted;
    let others = [
        (AuthzVerdict::NotMicrosoftSigned, "authz: C:\\a.exe -> NotMicrosoftSigned"),
        (AuthzVerdict::NotSigned(7), "authz: C:\\a.exe -> NotSigned(7)"),
        (
            AuthzVerdict::Indeterminate("why".into()),
            "authz: C:\\a.exe -> Indeterminate(\"why\")",
        ),
    ];
    let path = "C:\\a.exe";
    for debug in [false, true] {
        let mut notes = Vec::new();
        assert_eq!(enforce(Some((path, &trusted)), debug, &mut notes), Ok(()));
        assert_eq!(notes, vec![Note::Diag("authz: C:\\a.exe -> Trusted (MS root)".into())]);
    }
    for (v, want) in &others {
        let mut notes = Vec::new();
        assert_eq!(enforce(Some((path, v)), false, &mut notes), Err(want.to_string()));
        assert_eq!(notes, vec![Note::Diag(want.to_string())]);
        notes.clear();
        assert_eq!(enforce(Some((path, v)), true, &mut notes), Ok(()));
        assert_eq!(notes, vec![Note::Diag(format!("{want} (debug build: allowing)"))]);
        assert_eq!(v.debug_text(), format!("{v:?}"));
    }
    let mut notes = Vec::new();
    assert_eq!(
        enforce(None, false, &mut notes),
        Err("authz: caller image path unavailable".to_string())
    );
    assert!(notes.is_empty());
    assert_eq!(enforce(None, true, &mut notes), Ok(()));
    assert_eq!(
        notes,
        vec![Note::Diag("authz: caller image path unavailable (debug build: allowing)".into())]
    );
}

fn checked(opened: Result<(), u32>, status: i32, root: RootProbe) -> (AuthzVerdict, u32) {
    let mut check = ImageCheck::Open;
    let mut closed = 0;
    loop {
        let event = match &check {
            ImageCheck::Open => ImageEvent::Opened(opened),
            ImageCheck::Verify(_) => ImageEvent::Verified(status),
            ImageCheck::Root => ImageEvent::Root(root),
            ImageCheck::Close(_) => {
                closed += 1;
                ImageEvent::Closed
            }
            ImageCheck::Done(v) => return (v.clone(), closed),
        };
        check = check.next(event);
    }
}

#[test]
fn state_of_a_check_is_closed_once() {
    let root = RootProbe::PolicyStatus(0);
    assert!(matches!(checked(Ok(()), 0, root), (AuthzVerdict::Trusted, 1)));
    assert!(matches!(checked(Ok(()), 5, root), (AuthzVerdict::NotSigned(5), 1)));
    assert!(matches!(checked(Err(2), 5, root), (AuthzVerdict::Indeterminate(_), 1)));
    assert!(matches!(checked(Err(2), 0, root), (AuthzVerdict::Indeterminate(_), 1)));
    assert!(matches!(
        checked(Ok(()), 0, RootProbe::PolicyStatus(9)),
        (AuthzVerdict::NotMicrosoftSigned, 1)
    ));
    assert!(matches!(
        ImageCheck::Open.next(ImageEvent::Verified(0)),
        ImageCheck::Open
    ));
}

#[test]
fn impersonation_is_reverted_once() {
    for (status, found, want) in [(0, Some(caller()), 1), (0, None, 1), (1725, None, 0)] {
        let mut capture = Capture::Impersonate;
        let mut reverted = 0;
        let (s, f) = loop {
            let event = match &capture {
                Capture::Impersonate => CaptureEvent::Impersonated(status),
                Capture::Query => CaptureEvent::Found(found.clone()),
                Capture::Revert(_) => {
                    reverted += 1;
                    CaptureEvent::Reverted
                }
                Capture::Done(s, f) => break (*s, f.clone()),
            };
            capture = capture.next(event);
        };
        assert_eq!((s, f, reverted), (status, found, want));
    }
}

#[test]
fn caller_is_unknown_when_it_cannot_be_found_out() {
    assert_eq!(CallerIdentity::unknown().user_sid, "<unknown>");
    let mut notes = Vec::new();
    assert_eq!(capture_lrpc(0, Some(caller()), &mut notes), caller());
    assert!(notes.is_empty());
    assert_eq!(capture_lrpc(-5, Some(caller()), &mut notes), CallerIdentity::unknown());
    assert_eq!(capture_lrpc(1725, None, &mut notes), CallerIdentity::unknown());
    assert_eq!(capture_lrpc(0, None, &mut notes), CallerIdentity::unknown());
    assert_eq!(
        notes,
        vec![
            Note::Diag("identity: RpcImpersonateClient failed: RPC_STATUS(-5)".into()),
            Note::Diag("identity: RpcImpersonateClient failed: RPC_STATUS(1725)".into()),
            Note::Diag("identity: OpenThreadToken / GetTokenInformation returned None".into()),
        ]
    );
}

#[test]
fn token_query_goes_step_by_step() {
    let q = TokenQuery::OpenToken.next(TokenEvent::Finished(true)).next(TokenEvent::Size(44));
    assert!(matches!(q, TokenQuery::AskUser(44)));
    let units: Vec<u16> = "S-1-5-18".encode_utf16().collect();
    match q.next(TokenEvent::Finished(true)).next(TokenEvent::Text(Some(units))) {
        TokenQuery::Done(Some(c)) => assert_eq!(c.user_sid, "S-1-5-18"),
        other => panic!("{other:?}"),
    }
    for q in [
        TokenQuery::OpenToken.next(TokenEvent::Finished(false)),
        TokenQuery::AskSize.next(TokenEvent::Size(0)),
        TokenQuery::AskUser(4).next(TokenEvent::Finished(false)),
        TokenQuery::Convert.next(TokenEvent::Text(None)),
    ] {
        assert!(matches!(q, TokenQuery::Done(None)));
    }
    assert!(matches!(TokenQuery::Convert.next(TokenEvent::Size(3)), TokenQuery::Convert));
}

#[test]
fn failed_connection_names_the_state_of_the_service() {
    let fail = |probe| {
        Client::connect(Err(ConnectFailure { raw: "RPC down".into(), probe })).unwrap_err()
    };
    assert_eq!(
        fail(ScmProbe::NoManager).message(),
        "mxc-service is not installed on this machine (and the LRPC endpoint was unreachable: RPC down). The MXC SDK requires the `mxc-service` Windows service to enforce per-host network policy. Ask the application that bundles MXC (or your IT admin) to install the MXC runtime MSI."
    );
    assert!(matches!(fail(ScmProbe::NoService), ClientError::ServiceNotInstalled { .. }));
    assert_eq!(
        fail(ScmProbe::State(1)).message(),
        "mxc-service is installed but not running (state=1, lrpc: RPC down). Start it with `sc start mxc-service` or via Services.msc."
    );
    assert!(matches!(fail(ScmProbe::State(2)), ClientError::ServiceNotRunning { state: 2, .. }));
    assert!(matches!(fail(ScmProbe::State(7)), ClientError::ServiceNotRunning { state: 7, .. }));
    assert!(matches!(fail(ScmProbe::NoStatus), ClientError::ServiceNotRunning { state: 0, .. }));
    assert_eq!(fail(ScmProbe::State(4)).message(), "lrpc: RPC down");
    assert_eq!(service_install_status(ScmProbe::State(4)), ServiceInstallStatus::Running);
    assert_eq!(service_install_status(ScmProbe::State(3)), ServiceInstallStatus::Other(3));
    assert_eq!(Client::connect_with_timeout(2000, Ok(9)).unwrap().binding, 9);
}

#[test]
fn replies_are_matched_to_requests() {
    let client = || Client { binding: 1 };
    let version = || {
        Response::Version(GetVersionResponse {
            service_version: "0.7.0".into(),
            ipc_major: 0,
            ipc_minor: 1,
        })
    };
    assert_eq!(client().get_version(Ok(version())).unwrap().service_version, "0.7.0");
    let added = || {
        Response::AddPolicy(AddPolicyResponse { policy_id: PolicyId(2), filters_installed: 3 })
    };
    assert_eq!(client().add_policy(Ok(added())).unwrap(), (PolicyId(2), 3));
    let removed = || Response::RemovePolicy(RemovePolicyResponse { filters_removed: 3 });
    assert_eq!(client().remove_policy(Ok(removed())).unwrap(), 3);
    assert_eq!(
        client().get_version(Ok(removed())).unwrap_err().message(),
        "unexpected response variant: RemovePolicy(RemovePolicyResponse { filters_removed: 3 })"
    );
    assert!(matches!(client().add_policy(Ok(version())), Err(ClientError::Unexpected(_))));
    assert!(matches!(client().remove_policy(Ok(added())), Err(ClientError::Unexpected(_))));
    let refused = Response::Error(ServiceError::Internal("x".into()));
    assert_eq!(
        client().add_policy(Ok(refused)).unwrap_err().message(),
        "service returned error: internal service error: x"
    );
    assert_eq!(
        client().remove_policy(Err("gone".into())).unwrap_err().message(),
        "lrpc: gone"
    );
    match Client::add_policy_request("S".into(), DefaultPolicy::Allow, vec![any_rule()], 4) {
        Request::AddPolicy(a) => {
            assert_eq!((a.ac_sid_sddl.as_str(), a.rules.len(), a.sandbox_pid), ("S", 1, 4));
        }
        other => panic!("{other:?}"),
    }
    match Client::remove_policy_request(PolicyId(6)) {
        Request::RemovePolicy(r) => assert_eq!(r.policy_id, PolicyId(6)),
        other => panic!("{other:?}"),
    }
}

#[test]
fn binding_takes_three_calls() {
    let b = Binding::begin().answered(0).answered(0).answered(0);
    assert_eq!(b.outcome(), Some(Ok(())));
    assert!(Binding::begin().outcome().is_none());
    for (answers, want, frees) in [
        (vec![1], "RpcStringBindingComposeW failed: RPC_STATUS(1)", false),
        (vec![0, 2], "RpcBindingFromStringBindingW failed: RPC_STATUS(2)", false),
        (vec![0, 0, 3], "RpcBindingSetAuthInfoW failed: RPC_STATUS(3)", true),
    ] {
        let mut b = Binding::begin();
        for a in answers {
            b = b.answered(a);
        }
        assert_eq!(b.outcome().unwrap().unwrap_err(), want);
        assert_eq!(b.frees_binding(), frees);
    }
}

#[test]
fn server_is_started_once() {
    let mut server = RpcServer::new();
    assert_eq!(server.handler, None);
    let mut s = start(&mut server, 7);
    for a in [0, 0, 0] {
        assert!(s.outcome().is_none());
        s = server.answered(s, a);
        assert!(!server.listening);
    }
    let mut notes = Vec::new();
    note_startup(&s, &mut notes);
    assert!(notes.is_empty());
    s = server.answered(s, 1753);
    assert_eq!(s, Startup::Listening);
    note_startup(&s, &mut notes);
    let line = "LRPC listener registered on ncalrpc:mxc-service";
    assert_eq!(notes, vec![Note::Info(line.into()), Note::Diag(line.into())]);
    assert!(server.listening);
    assert_eq!(server.handler, Some(7));
    assert_eq!(start(&mut server, 8).outcome(), Some(Ok(())));
    assert_eq!(server, RpcServer { listening: true, handler: Some(8) });
    let decoded = ExchangeEvent::Decoded(Some(Request::GetVersion));
    assert!(matches!(
        Exchange::Decode.next(&server, decoded),
        Exchange::Handle(8, Request::GetVersion)
    ));
    for (k, name) in [
        "RpcServerUseProtseqEpW",
        "RpcServerRegisterIf3",
        "RpcServerRegisterAuthInfoW",
        "RpcServerListen",
    ]
    .iter()
    .enumerate()
    {
        let mut server = RpcServer::new();
        let mut s = start(&mut server, 1);
        for _ in 0..k {
            s = server.answered(s, 0);
        }
        s = server.answered(s, 1740);
        assert_eq!(s.outcome().unwrap().unwrap_err(), format!("{name} failed: RPC_STATUS(1740)"));
        assert!(!server.listening);
    }
}

#[test]
fn failed_exchange_sends_nothing() {
    let none = RpcServer::new();
    let server = RpcServer { listening: true, handler: Some(1) };
    let reply = || Response::RemovePolicy(RemovePolicyResponse { filters_removed: 1 });
    let decoded = || ExchangeEvent::Decoded(Some(Request::GetVersion));
    let e = Exchange::Decode.next(&server, decoded());
    let e = e.next(&server, ExchangeEvent::Handled(reply()));
    match e.next(&server, ExchangeEvent::Encoded(Some(vec![1, 2]))) {
        Exchange::Send(b) => assert_eq!(reply_bytes(b), Ok(vec![1, 2])),
        other => panic!("{other:?}"),
    }
    for e in [
        Exchange::Decode.next(&server, ExchangeEvent::Decoded(None)),
        Exchange::Decode.next(&none, decoded()),
        Exchange::Encode(reply()).next(&server, ExchangeEvent::Encoded(None)),
    ] {
        match e {
            Exchange::Send(b) => {
                assert_eq!(reply_bytes(b), Err("RpcCall returned empty response".to_string()));
            }
            other => panic!("{other:?}"),
        }
    }
    assert_eq!(request_bytes(Err("e".into())), Err("cbor encode: e".to_string()));
    assert_eq!(request_bytes(Ok(vec![3])), Ok(vec![3]));
    assert_eq!(
        decoded_reply(Err("e".into())).unwrap_err(),
        "decode response cbor: e"
    );
}

#[test]
fn flags_choose_the_mode() {
    let f = |console, install_grant, uninstall_grant| Flags { console, install_grant, uninstall_grant };
    assert_eq!(run_mode(f(false, false, false)), RunMode::Service);
    assert_eq!(run_mode(f(true, false, false)), RunMode::Console);
    assert_eq!(run_mode(f(false, true, false)), RunMode::InstallGrant);
    assert_eq!(run_mode(f(false, false, true)), RunMode::UninstallGrant);
    assert_eq!(RunMode::Service.first_line(), None);
    assert_eq!(RunMode::Console.first_line(), Some("starting in --console mode"));
    assert_eq!(
        RunMode::InstallGrant.first_line(),
        Some("install-grant: granting engine ACE to NT SERVICE\\mxc-service")
    );
    assert_eq!(
        RunMode::UninstallGrant.first_line(),
        Some("uninstall-grant: revoking engine ACE")
    );
    assert!(RunMode::Service.logs_as_service());
    assert!(!RunMode::Console.logs_as_service());
}

#[test]
fn controls_are_answered() {
    let a = |c| {
        let a = handle_control(c);
        (a.shutdown, a.implemented)
    };
    assert_eq!(a(Control::Stop), (true, true));
    assert_eq!(a(Control::Shutdown), (true, true));
    assert_eq!(a(Control::Interrogate), (false, true));
    assert_eq!(a(Control::Other), (false, false));
}

#[test]
fn service_starts_serves_and_stops() {
    let mut notes = Vec::new();
    let s = ServiceStep::Register;
    assert!(s.report().is_none());
    let s = s.next(Ok(()), 42, &mut notes);
    let r = s.report().unwrap();
    assert_eq!((r.state, r.accepts_stop, r.wait_hint_secs), (State::StartPending, false, 5));
    assert!(notes.is_empty());
    let s = s.next(Ok(()), 42, &mut notes);
    assert_eq!(notes, vec![Note::Diag("mxc-service running under SCM (pid=42)".into())]);
    let r = s.report().unwrap();
    assert_eq!(
        (r.state, r.accepts_stop, r.accepts_shutdown, r.wait_hint_secs),
        (State::Running, true, true, 0)
    );
    let s = s.next(Err("broken".into()), 42, &mut notes);
    assert_eq!(s.report().unwrap().state, State::Stopped);
    assert!(matches!(&s, ServiceStep::Stop(Err(e)) if e == "broken"));

    match ServiceStep::Register.next(Err("denied".into()), 42, &mut notes) {
        ServiceStep::Fail(e) => assert_eq!(e, "register status handler: denied"),
        other => panic!("{other:?}"),
    }
    match ServiceStep::OpenEngine.next(Err("no engine".into()), 42, &mut notes) {
        ServiceStep::Fail(e) => assert_eq!(e, "no engine"),
        other => panic!("{other:?}"),
    }
    assert_eq!(notes.len(), 1);
    assert_eq!(running_note(), Note::Info("mxc-service running".into()));
    assert_eq!(console_note(9), Note::Diag("mxc-service starting (--console, pid=9)".into()));
    assert_eq!(interrupt_note(), Note::Info("ctrl-c received, shutting down".into()));
    assert_eq!(exit_note("x"), Note::Error("service exited with error: x".into()));
    assert_eq!(console_open_error("x"), "WfpEngine::open: x");
    assert_eq!(dispatcher_error("x"), "service_dispatcher::start failed: x");
}

#[test]
fn listener_port_and_response() {
    assert_eq!(port(None), 19443);
    for s in ["", "+", "-1", "0", "80", "+80", "00080", "65535", "65536", "99999999999", "8o", " 80", "\u{0661}"] {
        assert_eq!(port(Some(s)), s.parse::<u16>().unwrap_or(19443));
    }
    assert_eq!(
        response(),
        "HTTP/1.1 200 OK\r\nContent-Length: 3\r\nConnection: close\r\n\r\nOK\n"
    );
}
