//! The local RPC transport: how a client binds to the endpoint, how a server
//! is started, and how one call is carried.

use crate::identity::{push_rpc_status, rpc_status_debug};
use crate::log::{note, note_views, Note, NoteView};
use crate::proto::{Request, Response};
use vstd::prelude::*;

verus! {

/// The endpoint of the service.
pub const ENDPOINT: &'static str = "mxc-service";

/// The protocol sequence: calls on the same machine.
pub const PROTSEQ: &'static str = "ncalrpc";

/// The status of a server that is listening already.
pub const RPC_S_ALREADY_LISTENING: i32 = 1753;

/// The calls by which a client binds, in their order.
#[derive(Debug, Clone, Copy, PartialEq, Eq, Structural)]
pub enum BindCall {
    Compose,
    FromString,
    SetAuthInfo,
}

/// Where a binding stands.
#[derive(Debug, Clone, Copy, PartialEq, Eq, Structural)]
pub enum Binding {
    /// This call is due.
    Call(BindCall),
    /// The client is bound.
    Bound,
    /// This call failed, with this status.
    Failed(BindCall, i32),
}

/// The name of a call that binds a client.
pub open spec fn bind_name(c: BindCall) -> Seq<char> {
    match c {
        BindCall::Compose => "RpcStringBindingComposeW"@,
        BindCall::FromString => "RpcBindingFromStringBindingW"@,
        BindCall::SetAuthInfo => "RpcBindingSetAuthInfoW"@,
    }
}

/// The text for a call that failed.
pub open spec fn rpc_failure(name: Seq<char>, status: i32) -> Seq<char> {
    name + " failed: "@ + rpc_status_debug(status)
}

fn rpc_failure_text(name: &str, status: i32) -> (m: String)
    ensures
        m@ == rpc_failure(name@, status),
{
    let mut m: String = name.to_owned();
    m.append(" failed: ");
    push_rpc_status(&mut m, status);
    m
}

/// The binding after the call that is due gave `status`.
pub open spec fn next_binding(b: Binding, status: i32) -> Binding {
    match b {
        Binding::Call(c) => if status != 0 {
            Binding::Failed(c, status)
        } else {
            match c {
                BindCall::Compose => Binding::Call(BindCall::FromString),
                BindCall::FromString => Binding::Call(BindCall::SetAuthInfo),
                BindCall::SetAuthInfo => Binding::Bound,
            }
        },
        _ => b,
    }
}

impl Binding {
    /// A binding that has not begun.
    pub fn begin() -> (b: Binding)
        ensures
            b == Binding::Call(BindCall::Compose),
    {
        Binding::Call(BindCall::Compose)
    }

    /// The binding after the call that was due was answered.
    pub fn answered(self, status: i32) -> (b: Binding)
        ensures
            b == next_binding(self, status),
            self is Call && status != 0 ==> b == Binding::Failed(self->Call_0, status),
            b is Bound <==> self is Bound || self == Binding::Call(BindCall::SetAuthInfo) && status
                == 0,
    {
        match self {
            Binding::Call(c) => if status != 0 {
                Binding::Failed(c, status)
            } else {
                match c {
                    BindCall::Compose => Binding::Call(BindCall::FromString),
                    BindCall::FromString => Binding::Call(BindCall::SetAuthInfo),
                    BindCall::SetAuthInfo => Binding::Bound,
                }
            },
            other => other,
        }
    }

    /// What came of the binding, once it is over.
    pub fn outcome(&self) -> (r: Option<Result<(), String>>)
        ensures
            match *self {
                Binding::Call(_) => r is None,
                Binding::Bound => r == Some(Ok::<(), String>(())),
                Binding::Failed(c, status) => r is Some && r->0 is Err && r->0->Err_0@
                    == rpc_failure(bind_name(c), status),
            },
    {
        match self {
            Binding::Call(_) => None,
            Binding::Bound => Some(Ok(())),
            Binding::Failed(c, status) => {
                let name: &'static str = match c {
                    BindCall::Compose => "RpcStringBindingComposeW",
                    BindCall::FromString => "RpcBindingFromStringBindingW",
                    BindCall::SetAuthInfo => "RpcBindingSetAuthInfoW",
                };
                Some(Err(rpc_failure_text(name, *status)))
            },
        }
    }

    /// Whether a binding exists that is to be freed, because it could not be
    /// used.
    pub fn frees_binding(&self) -> (r: bool)
        ensures
            r == (self is Failed && self->Failed_0 == BindCall::SetAuthInfo),
    {
        match self {
            Binding::Failed(BindCall::SetAuthInfo, _) => true,
            _ => false,
        }
    }
}

/// The calls by which a server is started, in their order.
#[derive(Debug, Clone, Copy, PartialEq, Eq, Structural)]
pub enum ServerCall {
    UseProtseq,
    RegisterInterface,
    RegisterAuthInfo,
    Listen,
}

/// Where the start of a server stands.
#[derive(Debug, Clone, Copy, PartialEq, Eq, Structural)]
pub enum Startup {
    /// This call is due.
    Call(ServerCall),
    /// The server is listening.
    Listening,
    /// This call failed, with this status.
    Failed(ServerCall, i32),
}

/// The name of a call that starts a server.
pub open spec fn server_name(c: ServerCall) -> Seq<char> {
    match c {
        ServerCall::UseProtseq => "RpcServerUseProtseqEpW"@,
        ServerCall::RegisterInterface => "RpcServerRegisterIf3"@,
        ServerCall::RegisterAuthInfo => "RpcServerRegisterAuthInfoW"@,
        ServerCall::Listen => "RpcServerListen"@,
    }
}

/// A server: whether it has been started, and the handler that answers its
/// calls. A handler is known here by a number.
#[derive(Debug, Clone, Copy, PartialEq, Eq)]
pub struct RpcServer {
    pub listening: bool,
    pub handler: Option<u64>,
}

/// The startup after the call that is due gave `status`.
pub open spec fn next_startup(s: Startup, status: i32) -> Startup {
    match s {
        Startup::Call(c) => match c {
            ServerCall::Listen => if status == 0 || status == RPC_S_ALREADY_LISTENING {
                Startup::Listening
            } else {
                Startup::Failed(c, status)
            },
            _ => if status != 0 {
                Startup::Failed(c, status)
            } else {
                match c {
                    ServerCall::UseProtseq => Startup::Call(ServerCall::RegisterInterface),
                    ServerCall::RegisterInterface => Startup::Call(ServerCall::RegisterAuthInfo),
                    _ => Startup::Call(ServerCall::Listen),
                }
            },
        },
        _ => s,
    }
}

/// A server with another handler.
pub open spec fn with_handler(s: RpcServer, handler: u64) -> RpcServer {
    RpcServer { listening: s.listening, handler: Some(handler) }
}

/// A server after the call that its start asked for gave `status`.
pub open spec fn after_answer(s: RpcServer, startup: Startup, status: i32) -> RpcServer {
    RpcServer {
        listening: s.listening || next_startup(startup, status) is Listening,
        handler: s.handler,
    }
}

/// Starts a server with a handler. One that is listening is not started again;
/// only the handler that answers its calls is replaced.
pub fn start(server: &mut RpcServer, handler: u64) -> (s: Startup)
    ensures
        *final(server) == with_handler(*old(server), handler),
        s == (if old(server).listening {
            Startup::Listening
        } else {
            Startup::Call(ServerCall::UseProtseq)
        }),
{
    server.handler = Some(handler);
    if server.listening {
        Startup::Listening
    } else {
        Startup::Call(ServerCall::UseProtseq)
    }
}

impl RpcServer {
    /// A server that has not been started and has no handler.
    pub fn new() -> (s: RpcServer)
        ensures
            s == (RpcServer { listening: false, handler: None }),
    {
        RpcServer { listening: false, handler: None }
    }

    /// The start after the call that was due was answered. Once it succeeds,
    /// the server is listening.
    pub fn answered(&mut self, s: Startup, status: i32) -> (next: Startup)
        ensures
            next == next_startup(s, status),
            *final(self) == after_answer(*old(self), s, status),
            final(self).handler == old(self).handler,
            final(self).listening <==> old(self).listening || next is Listening,
            next is Listening <==> s is Listening || s == Startup::Call(ServerCall::Listen) && (
            status == 0 || status == 1753),
    {
        let next: Startup = match s {
            Startup::Call(c) => match c {
                ServerCall::Listen => if status == 0 || status == RPC_S_ALREADY_LISTENING {
                    Startup::Listening
                } else {
                    Startup::Failed(c, status)
                },
                _ => if status != 0 {
                    Startup::Failed(c, status)
                } else {
                    match c {
                        ServerCall::UseProtseq => Startup::Call(ServerCall::RegisterInterface),
                        ServerCall::RegisterInterface => Startup::Call(
                            ServerCall::RegisterAuthInfo,
                        ),
                        _ => Startup::Call(ServerCall::Listen),
                    }
                },
            },
            other => other,
        };
        if let Startup::Listening = next {
            self.listening = true;
        }
        next
    }
}

impl Startup {
    /// What came of the start, once it is over.
    pub fn outcome(&self) -> (r: Option<Result<(), String>>)
        ensures
            match *self {
                Startup::Call(_) => r is None,
                Startup::Listening => r == Some(Ok::<(), String>(())),
                Startup::Failed(c, status) => r is Some && r->0 is Err && r->0->Err_0@
                    == rpc_failure(server_name(c), status),
            },
    {
        match self {
            Startup::Call(_) => None,
            Startup::Listening => Some(Ok(())),
            Startup::Failed(c, status) => {
                let name: &'static str = match c {
                    ServerCall::UseProtseq => "RpcServerUseProtseqEpW",
                    ServerCall::RegisterInterface => "RpcServerRegisterIf3",
                    ServerCall::RegisterAuthInfo => "RpcServerRegisterAuthInfoW",
                    ServerCall::Listen => "RpcServerListen",
                };
                Some(Err(rpc_failure_text(name, *status)))
            },
        }
    }
}

/// The line for a server that listens.
pub open spec fn listening_line() -> Seq<char> {
    "LRPC listener registered on "@ + PROTSEQ@ + ":"@ + ENDPOINT@
}

/// What a start is noted as: nothing before the server listens.
pub open spec fn startup_notes(s: Startup) -> Seq<NoteView> {
    match s {
        Startup::Listening => seq![
            NoteView::Info(listening_line()),
            NoteView::Diag(listening_line()),
        ],
        _ => Seq::empty(),
    }
}

/// Notes where a start stands: once the server listens, a line for the log and
/// for the diagnostic console.
pub fn note_startup(s: &Startup, notes: &mut Vec<Note>)
    ensures
        note_views(final(notes)@) == note_views(old(notes)@) + startup_notes(*s),
{
    if let Startup::Listening = s {
        let mut line: String = "LRPC listener registered on ".to_owned();
        line.append(PROTSEQ);
        line.append(":");
        line.append(ENDPOINT);
        let copy: String = line.as_str().to_owned();
        note(notes, Note::Info(line));
        note(notes, Note::Diag(copy));
    }
    assert(note_views(notes@) =~= note_views(old(notes)@) + startup_notes(*s));
}

/// One call at the server: from the bytes of the request to the bytes of the
/// reply.
#[derive(Debug)]
pub enum Exchange {
    /// Decode the request.
    Decode,
    /// Have the request answered by this handler.
    Handle(u64, Request),
    /// Encode the response.
    Encode(Response),
    /// Send these bytes.
    Send(Vec<u8>),
}

/// What came of a step of a call.
#[derive(Debug)]
pub enum ExchangeEvent {
    Decoded(Option<Request>),
    Handled(Response),
    Encoded(Option<Vec<u8>>),
}

/// Whether a call is over with an empty reply.
pub open spec fn is_empty_reply(e: Exchange) -> bool {
    e is Send && e->Send_0@ == Seq::<u8>::empty()
}

impl Exchange {
    /// The call after a step. The handler that the server has when the request
    /// is decoded answers it. Where a step fails, or there is no handler, the
    /// reply is empty; an event that no step asked for changes nothing.
    pub fn next(self, server: &RpcServer, event: ExchangeEvent) -> (e: Exchange)
        ensures
            self is Decode && event is Decoded && (event->Decoded_0 is None || server.handler is None)
                ==> e is Send && e->Send_0@.len() == 0,
            self is Encode && event is Encoded && event->Encoded_0 is None ==> e is Send
                && e->Send_0@.len() == 0,
            match (self, event) {
                (Exchange::Decode, ExchangeEvent::Decoded(Some(req))) => match server.handler {
                    Some(h) => e == Exchange::Handle(h, req),
                    None => is_empty_reply(e),
                },
                (Exchange::Decode, ExchangeEvent::Decoded(None)) => is_empty_reply(e),
                (Exchange::Handle(_, _), ExchangeEvent::Handled(r)) => e == Exchange::Encode(r),
                (Exchange::Encode(_), ExchangeEvent::Encoded(Some(b))) => e == Exchange::Send(b),
                (Exchange::Encode(_), ExchangeEvent::Encoded(None)) => is_empty_reply(e),
                _ => e == self,
            },
    {
        match (self, event) {
            (Exchange::Decode, ExchangeEvent::Decoded(Some(req))) => match server.handler {
                Some(h) => Exchange::Handle(h, req),
                None => Exchange::Send(Vec::new()),
            },
            (Exchange::Decode, ExchangeEvent::Decoded(None)) => Exchange::Send(Vec::new()),
            (Exchange::Handle(_, _), ExchangeEvent::Handled(r)) => Exchange::Encode(r),
            (Exchange::Encode(_), ExchangeEvent::Encoded(Some(b))) => Exchange::Send(b),
            (Exchange::Encode(_), ExchangeEvent::Encoded(None)) => Exchange::Send(Vec::new()),
            (e, _) => e,
        }
    }
}

/// The text for a reply without bytes.
pub const EMPTY_REPLY: &'static str = "RpcCall returned empty response";

/// The bytes of a request at the client, given what encoding it gave.
pub fn request_bytes(encoded: Result<Vec<u8>, String>) -> (r: Result<Vec<u8>, String>)
    ensures
        encoded is Ok ==> r == encoded,
        encoded is Err ==> r is Err && r->Err_0@ == "cbor encode: "@ + encoded->Err_0@,
{
    match encoded {
        Ok(b) => Ok(b),
        Err(e) => {
            let mut m: String = "cbor encode: ".to_owned();
            m.append(e.as_str());
            Err(m)
        },
    }
}

/// The bytes of a reply at the client. An empty one is an error.
pub fn reply_bytes(reply: Vec<u8>) -> (r: Result<Vec<u8>, String>)
    ensures
        r is Ok <==> reply@.len() > 0,
        r is Ok ==> r->Ok_0@ == reply@,
        r is Err ==> r->Err_0@ == EMPTY_REPLY@,
        r is Err ==> r->Err_0@ == "RpcCall returned empty response"@,
{
    if reply.len() == 0 {
        return Err(EMPTY_REPLY.to_owned());
    }
    Ok(reply)
}

/// The response at the client, given what decoding the reply gave.
pub fn decoded_reply(decoded: Result<Response, String>) -> (r: Result<Response, String>)
    ensures
        decoded is Ok ==> r == decoded,
        decoded is Err ==> r is Err && r->Err_0@ == "decode response cbor: "@ + decoded->Err_0@,
{
    match decoded {
        Ok(v) => Ok(v),
        Err(e) => {
            let mut m: String = "decode response cbor: ".to_owned();
            m.append(e.as_str());
            Err(m)
        },
    }
}

/// The binding after calls that gave these answers.
pub open spec fn binding_after(answers: Seq<i32>) -> Binding
    decreases answers.len(),
{
    if answers.len() == 0 {
        Binding::Call(BindCall::Compose)
    } else {
        next_binding(binding_after(answers.drop_last()), answers.last())
    }
}

/// The startup after calls that gave these answers.
pub open spec fn startup_after(answers: Seq<i32>) -> Startup
    decreases answers.len(),
{
    if answers.len() == 0 {
        Startup::Call(ServerCall::UseProtseq)
    } else {
        next_startup(startup_after(answers.drop_last()), answers.last())
    }
}

/// What happens to a server.
pub enum ServerEvent {
    /// It is started with a handler.
    Start(u64),
    /// A call of its start was answered.
    Answer(Startup, i32),
}

/// A server after a list of events.
pub open spec fn server_after(events: Seq<ServerEvent>) -> RpcServer
    decreases events.len(),
{
    if events.len() == 0 {
        RpcServer { listening: false, handler: None }
    } else {
        let s = server_after(events.drop_last());
        match events.last() {
            ServerEvent::Start(handler) => with_handler(s, handler),
            ServerEvent::Answer(startup, status) => after_answer(s, startup, status),
        }
    }
}

/// The calls of a server are answered by the handler of its latest start,
/// whatever was answered since, and a server that is listening stays so.
pub proof fn law_latest_handler_answers(events: Seq<ServerEvent>, k: int)
    requires
        0 <= k < events.len(),
        events[k] is Start,
        forall|i: int| k < i < events.len() ==> #[trigger] events[i] is Answer,
    ensures
        server_after(events).handler == Some(events[k]->Start_0),
        server_after(events.take(k)).listening ==> server_after(events).listening,
    decreases events.len(),
{
    let init = events.drop_last();
    if k == events.len() - 1 {
        assert(events.take(k) =~= init);
    } else {
        assert(events[events.len() - 1] is Answer);
        law_latest_handler_answers(init, k);
        assert(init.take(k) =~= events.take(k));
    }
}

/// A client is bound exactly if all three calls succeed.
pub proof fn law_bound_after_all_calls(a: i32, b: i32, c: i32)
    ensures
        binding_after(seq![a, b, c]) == Binding::Bound <==> a == 0 && b == 0 && c == 0,
{
    reveal_with_fuel(binding_after, 4);
    assert(seq![a, b, c].drop_last() =~= seq![a, b]);
    assert(seq![a, b].drop_last() =~= seq![a]);
    assert(seq![a].drop_last() =~= Seq::<i32>::empty());
}

/// A server is listening exactly if the first three calls succeed and the last
/// one does or finds it listening.
pub proof fn law_listening_after_all_calls(a: i32, b: i32, c: i32, d: i32)
    ensures
        startup_after(seq![a, b, c, d]) == Startup::Listening <==> a == 0 && b == 0 && c == 0 && (d
            == 0 || d == RPC_S_ALREADY_LISTENING),
{
    reveal_with_fuel(startup_after, 5);
    assert(seq![a, b, c, d].drop_last() =~= seq![a, b, c]);
    assert(seq![a, b, c].drop_last() =~= seq![a, b]);
    assert(seq![a, b].drop_last() =~= seq![a]);
    assert(seq![a].drop_last() =~= Seq::<i32>::empty());
}

/// A client binds by three calls: the binding is composed, made, and given its
/// authentication. The first that fails ends it, and is told with its status.
pub proof fn law_binding_steps(c: BindCall, status: i32, b: Binding)
    ensures
        status != 0 ==> next_binding(Binding::Call(c), status) == Binding::Failed(c, status),
        next_binding(Binding::Call(BindCall::Compose), 0) == Binding::Call(BindCall::FromString),
        next_binding(Binding::Call(BindCall::FromString), 0) == Binding::Call(
            BindCall::SetAuthInfo,
        ),
        next_binding(Binding::Call(BindCall::SetAuthInfo), 0) == Binding::Bound,
        !(b is Call) ==> next_binding(b, status) == b,
{
}

/// A server starts by four calls: it takes its endpoint, registers its interface
/// and its authentication, and listens. The first that fails ends the start, and
/// is told with its status; only to listen may also find the server listening
/// (status 1753).
pub proof fn law_startup_steps(c: ServerCall, status: i32, s: Startup)
    ensures
        status != 0 && !(c is Listen && status == 1753) ==> next_startup(Startup::Call(c), status)
            == Startup::Failed(c, status),
        next_startup(Startup::Call(ServerCall::UseProtseq), 0) == Startup::Call(
            ServerCall::RegisterInterface,
        ),
        next_startup(Startup::Call(ServerCall::RegisterInterface), 0) == Startup::Call(
            ServerCall::RegisterAuthInfo,
        ),
        next_startup(Startup::Call(ServerCall::RegisterAuthInfo), 0) == Startup::Call(
            ServerCall::Listen,
        ),
        next_startup(Startup::Call(ServerCall::Listen), 0) == Startup::Listening,
        next_startup(Startup::Call(ServerCall::Listen), 1753) == Startup::Listening,
        !(s is Call) ==> next_startup(s, status) == s,
{
}

/// A server changes its handler only by a start, and begins to listen only by an
/// answer that ends its start.
pub proof fn law_server_changes(s: RpcServer, handler: u64, startup: Startup, status: i32)
    ensures
        with_handler(s, handler).handler == Some(handler),
        with_handler(s, handler).listening == s.listening,
        after_answer(s, startup, status).handler == s.handler,
        after_answer(s, startup, status).listening <==> s.listening || startup is Listening || (
        startup == Startup::Call(ServerCall::Listen) && (status == 0 || status == 1753)),
{
}

/// A call that failed is told by its name and its status.
pub proof fn law_rpc_texts(name: Seq<char>, status: i32)
    ensures
        rpc_failure(name, status) == name + " failed: "@ + rpc_status_debug(status),
        bind_name(BindCall::Compose) == "RpcStringBindingComposeW"@,
        bind_name(BindCall::FromString) == "RpcBindingFromStringBindingW"@,
        bind_name(BindCall::SetAuthInfo) == "RpcBindingSetAuthInfoW"@,
        server_name(ServerCall::UseProtseq) == "RpcServerUseProtseqEpW"@,
        server_name(ServerCall::RegisterInterface) == "RpcServerRegisterIf3"@,
        server_name(ServerCall::RegisterAuthInfo) == "RpcServerRegisterAuthInfoW"@,
        server_name(ServerCall::Listen) == "RpcServerListen"@,
{
}

/// A start is noted once, in the log and on the diagnostic console, where the
/// server listens, and the line tells where.
pub proof fn law_startup_notes(s: Startup)
    ensures
        s is Listening ==> startup_notes(s) == seq![
            NoteView::Info("LRPC listener registered on ncalrpc:mxc-service"@),
            NoteView::Diag("LRPC listener registered on ncalrpc:mxc-service"@),
        ],
        !(s is Listening) ==> startup_notes(s).len() == 0,
{
    reveal_strlit("LRPC listener registered on ");
    reveal_strlit("ncalrpc");
    reveal_strlit(":");
    reveal_strlit("mxc-service");
    reveal_strlit("LRPC listener registered on ncalrpc:mxc-service");
    assert(listening_line() =~= "LRPC listener registered on ncalrpc:mxc-service"@);
}

} // verus!
