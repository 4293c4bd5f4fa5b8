//! The life of the service process: what its arguments ask for, how it
//! answers the service control manager, and in which order it starts, serves
//! and stops.

use crate::log::{note, note_views, Note, NoteView};
use crate::text::{decimal, push_decimal};
use vstd::prelude::*;

verus! {

/// The flags of the command line.
#[derive(Debug, Clone, Copy, PartialEq, Eq, Structural)]
pub struct Flags {
    pub console: bool,
    pub install_grant: bool,
    pub uninstall_grant: bool,
}

/// What the process is started for.
#[derive(Debug, Clone, Copy, PartialEq, Eq, Structural)]
pub enum RunMode {
    InstallGrant,
    UninstallGrant,
    Console,
    Service,
}

/// The mode that the flags ask for.
pub open spec fn mode_of(f: Flags) -> RunMode {
    if f.install_grant {
        RunMode::InstallGrant
    } else if f.uninstall_grant {
        RunMode::UninstallGrant
    } else if f.console {
        RunMode::Console
    } else {
        RunMode::Service
    }
}

/// What the flags ask for. Without any, the process is a service.
pub fn run_mode(f: Flags) -> (m: RunMode)
    ensures
        m == mode_of(f),
        m is InstallGrant <==> f.install_grant,
        m is UninstallGrant <==> !f.install_grant && f.uninstall_grant,
        m is Console <==> !f.install_grant && !f.uninstall_grant && f.console,
        m is Service <==> !f.install_grant && !f.uninstall_grant && !f.console,
{
    if f.install_grant {
        RunMode::InstallGrant
    } else if f.uninstall_grant {
        RunMode::UninstallGrant
    } else if f.console {
        RunMode::Console
    } else {
        RunMode::Service
    }
}

impl RunMode {
    /// The first line of the log; as a service there is none.
    pub fn first_line(&self) -> (line: Option<&'static str>)
        ensures
            match *self {
                RunMode::InstallGrant => line is Some && line->0@
                    == "install-grant: granting engine ACE to NT SERVICE\\mxc-service"@,
                RunMode::UninstallGrant => line is Some && line->0@
                    == "uninstall-grant: revoking engine ACE"@,
                RunMode::Console => line is Some && line->0@ == "starting in --console mode"@,
                RunMode::Service => line is None,
            },
    {
        match self {
            RunMode::InstallGrant => Some(
                "install-grant: granting engine ACE to NT SERVICE\\mxc-service",
            ),
            RunMode::UninstallGrant => Some("uninstall-grant: revoking engine ACE"),
            RunMode::Console => Some("starting in --console mode"),
            RunMode::Service => None,
        }
    }

    /// Whether the log goes to the event log.
    pub fn logs_as_service(&self) -> (r: bool)
        ensures
            r == (*self == RunMode::Service),
    {
        match self {
            RunMode::Service => true,
            _ => false,
        }
    }
}

/// A control code of the service control manager.
#[derive(Debug, Clone, Copy, PartialEq, Eq, Structural)]
pub enum Control {
    Stop,
    Shutdown,
    Interrogate,
    Other,
}

/// The answer to a control code.
#[derive(Debug, Clone, Copy, PartialEq, Eq, Structural)]
pub struct ControlAnswer {
    /// Whether the service is to stop.
    pub shutdown: bool,
    /// Whether the code is implemented.
    pub implemented: bool,
}

/// The answer to a control code: stop and shutdown stop the service, an
/// interrogation is acknowledged, and nothing else is implemented.
pub fn handle_control(c: Control) -> (a: ControlAnswer)
    ensures
        a.shutdown == (c == Control::Stop || c == Control::Shutdown),
        a.implemented == (c != Control::Other),
{
    match c {
        Control::Stop => ControlAnswer { shutdown: true, implemented: true },
        Control::Shutdown => ControlAnswer { shutdown: true, implemented: true },
        Control::Interrogate => ControlAnswer { shutdown: false, implemented: true },
        Control::Other => ControlAnswer { shutdown: false, implemented: false },
    }
}

/// The states of the service that it reports.
#[derive(Debug, Clone, Copy, PartialEq, Eq, Structural)]
pub enum State {
    StartPending,
    Running,
    Stopped,
}

/// A status for the service control manager. The service runs in a process of
/// its own, and its exit code and its checkpoint are always zero.
#[derive(Debug, Clone, Copy, PartialEq, Eq, Structural)]
pub struct Status {
    pub state: State,
    pub accepts_stop: bool,
    pub accepts_shutdown: bool,
    pub wait_hint_secs: u64,
}

/// The status of a state: only a running service accepts controls, and only a
/// starting one asks for patience.
pub open spec fn status_of(s: State) -> Status {
    Status {
        state: s,
        accepts_stop: s == State::Running,
        accepts_shutdown: s == State::Running,
        wait_hint_secs: if s == State::StartPending {
            5
        } else {
            0
        },
    }
}

/// The status to report in a state.
pub fn status(s: State) -> (r: Status)
    ensures
        r == status_of(s),
        r.state == s,
        r.accepts_stop <==> s is Running,
        r.accepts_shutdown <==> s is Running,
        r.wait_hint_secs == 5 <==> s is StartPending,
        r.wait_hint_secs == 0 <==> !(s is StartPending),
{
    match s {
        State::StartPending => Status {
            state: s,
            accepts_stop: false,
            accepts_shutdown: false,
            wait_hint_secs: 5,
        },
        State::Running => Status {
            state: s,
            accepts_stop: true,
            accepts_shutdown: true,
            wait_hint_secs: 0,
        },
        State::Stopped => Status {
            state: s,
            accepts_stop: false,
            accepts_shutdown: false,
            wait_hint_secs: 0,
        },
    }
}

/// What a service does next.
#[derive(Debug)]
pub enum ServiceStep {
    /// Register the handler for control codes.
    Register,
    /// Report that the service is starting, then open the engine.
    OpenEngine,
    /// Start the diagnostic writer, report that the service is running, then
    /// serve until it is told to stop.
    Serve,
    /// Report that the service has stopped, then end with this result.
    Stop(Result<(), String>),
    /// End with this error. Nothing more is reported.
    Fail(String),
}

/// The line for a service that runs.
pub open spec fn running_line(pid: u32) -> Seq<char> {
    "mxc-service running under SCM (pid="@ + decimal(pid as nat) + ")"@
}

impl ServiceStep {
    /// The status to report before a step is performed, if there is one.
    pub fn report(&self) -> (s: Option<Status>)
        ensures
            match *self {
                ServiceStep::OpenEngine => s == Some(status_of(State::StartPending)),
                ServiceStep::Serve => s == Some(status_of(State::Running)),
                ServiceStep::Stop(_) => s == Some(status_of(State::Stopped)),
                _ => s is None,
            },
    {
        match self {
            ServiceStep::OpenEngine => Some(status(State::StartPending)),
            ServiceStep::Serve => Some(status(State::Running)),
            ServiceStep::Stop(_) => Some(status(State::Stopped)),
            _ => None,
        }
    }

    /// The service after a step, given what came of it. A service that has
    /// been running always reports that it has stopped; one whose engine does
    /// not open, or whose handler is not accepted, ends with the error.
    pub fn next(self, result: Result<(), String>, pid: u32, notes: &mut Vec<Note>) -> (s:
        ServiceStep)
        ensures
            match self {
                ServiceStep::Register => match result {
                    Ok(_) => s is OpenEngine,
                    Err(e) => s is Fail && s->Fail_0@ == "register status handler: "@ + e@,
                },
                ServiceStep::OpenEngine => match result {
                    Ok(_) => s is Serve,
                    Err(e) => s == ServiceStep::Fail(e),
                },
                ServiceStep::Serve => s == ServiceStep::Stop(result),
                _ => s == self,
            },
            self is OpenEngine && result is Ok ==> note_views(final(notes)@) == note_views(
                old(notes)@,
            ).push(NoteView::Diag(running_line(pid))),
            !(self is OpenEngine && result is Ok) ==> note_views(final(notes)@) == note_views(
                old(notes)@,
            ),
    {
        match self {
            ServiceStep::Register => match result {
                Ok(_) => ServiceStep::OpenEngine,
                Err(e) => {
                    let mut m: String = "register status handler: ".to_owned();
                    m.append(e.as_str());
                    ServiceStep::Fail(m)
                },
            },
            ServiceStep::OpenEngine => match result {
                Ok(_) => {
                    let mut line: String = "mxc-service running under SCM (pid=".to_owned();
                    push_decimal(&mut line, pid as u64);
                    line.append(")");
                    note(notes, Note::Diag(line));
                    ServiceStep::Serve
                },
                Err(e) => ServiceStep::Fail(e),
            },
            ServiceStep::Serve => ServiceStep::Stop(result),
            other => other,
        }
    }
}

/// The note on a service that has reported that it is running.
pub fn running_note() -> (n: Note)
    ensures
        n@ == NoteView::Info("mxc-service running"@),
{
    Note::Info("mxc-service running".to_owned())
}

/// The line for a service in the foreground.
pub open spec fn console_line(pid: u32) -> Seq<char> {
    "mxc-service starting (--console, pid="@ + decimal(pid as nat) + ")"@
}

/// The note on a start in the foreground.
pub fn console_note(pid: u32) -> (n: Note)
    ensures
        n@ == NoteView::Diag(console_line(pid)),
{
    let mut line: String = "mxc-service starting (--console, pid=".to_owned();
    push_decimal(&mut line, pid as u64);
    line.append(")");
    Note::Diag(line)
}

/// The error for an engine that does not open in the foreground.
pub fn console_open_error(e: &str) -> (m: String)
    ensures
        m@ == "WfpEngine::open: "@ + e@,
{
    let mut m: String = "WfpEngine::open: ".to_owned();
    m.append(e);
    m
}

/// The note on a request by the user to end.
pub fn interrupt_note() -> (n: Note)
    ensures
        n@ == NoteView::Info("ctrl-c received, shutting down"@),
{
    Note::Info("ctrl-c received, shutting down".to_owned())
}

/// The note on a service that ended with an error.
pub fn exit_note(e: &str) -> (n: Note)
    ensures
        n@ == NoteView::Error("service exited with error: "@ + e@),
{
    let mut m: String = "service exited with error: ".to_owned();
    m.append(e);
    Note::Error(m)
}

/// The error for a process that the service control manager did not start.
pub fn dispatcher_error(e: &str) -> (m: String)
    ensures
        m@ == "service_dispatcher::start failed: "@ + e@,
{
    let mut m: String = "service_dispatcher::start failed: ".to_owned();
    m.append(e);
    m
}

/// A process that changes the grant does nothing else, whatever else it is
/// asked for, and to install comes before to remove; without flags it is a
/// service.
pub proof fn law_modes(f: Flags)
    ensures
        f.install_grant ==> mode_of(f) is InstallGrant,
        !f.install_grant && f.uninstall_grant ==> mode_of(f) is UninstallGrant,
        mode_of(f) is Console ==> f.console,
        mode_of(f) is Service <==> f == (Flags {
            console: false,
            install_grant: false,
            uninstall_grant: false,
        }),
{
}

/// Controls are accepted while the service runs and never else, and a time to
/// wait is named while it starts and never else.
pub proof fn law_status(s: State)
    ensures
        status_of(s).state == s,
        status_of(s).accepts_stop == status_of(s).accepts_shutdown,
        status_of(s).accepts_stop <==> s is Running,
        status_of(s).wait_hint_secs == 5 <==> s is StartPending,
        status_of(s).wait_hint_secs == 0 <==> s is Running || s is Stopped,
{
}

/// The lines on a start tell the process in decimal.
pub proof fn law_start_lines(pid: u32)
    ensures
        running_line(pid) == "mxc-service running under SCM (pid="@ + decimal(pid as nat) + ")"@,
        console_line(pid) == "mxc-service starting (--console, pid="@ + decimal(pid as nat) + ")"@,
{
}

} // verus!
