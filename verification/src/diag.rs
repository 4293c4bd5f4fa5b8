//! Diagnostic lines for the console of the interactive user: a bounded queue,
//! the envelope of a line on the pipe, and the writer that connects to the
//! pipe and drains the queue.

use crate::ip::{is_number, number_value};
use crate::text::{digit, hex_fixed, is_empty, lemma_char, push_hex_fixed};
use crate::wide::{decode_utf16, until_nul, wide_to_string};
use std::collections::VecDeque;
use vstd::prelude::*;

verus! {

/// How many lines wait at most.
pub const QUEUE_CAP: usize = 256;

/// The lines that wait, oldest first, and whether the writer was started.
#[derive(Debug)]
pub struct DiagQueue {
    started: bool,
    lines: VecDeque<String>,
}

impl View for DiagQueue {
    type V = Seq<Seq<char>>;

    closed spec fn view(&self) -> Seq<Seq<char>> {
        self.lines@.map_values(|s: String| s@)
    }
}

/// A queue without lines, before the writer is started.
pub fn queue() -> (q: DiagQueue)
    ensures
        !q.started(),
        q@ == Seq::<Seq<char>>::empty(),
{
    let q: DiagQueue = DiagQueue { started: false, lines: VecDeque::new() };
    assert(q@ =~= Seq::<Seq<char>>::empty());
    q
}

/// Takes note that the writer is started. The result says whether this is to
/// be done now: a second call starts nothing.
pub fn init(q: &mut DiagQueue) -> (start: bool)
    ensures
        start == !old(q).started(),
        final(q).started(),
        final(q)@ == old(q)@,
{
    let start: bool = !q.started;
    q.started = true;
    start
}

/// A queue after a line was offered. The line is dropped where the queue is
/// full and where there is no writer.
pub open spec fn with_line(started: bool, q: Seq<Seq<char>>, line: Seq<char>) -> Seq<Seq<char>> {
    if !started || q.len() >= QUEUE_CAP {
        q
    } else {
        q.push(line)
    }
}

/// Enqueues a line, or drops it where the queue is full or the writer was not
/// started.
pub fn emit(q: &mut DiagQueue, line: String)
    ensures
        final(q)@ == with_line(old(q).started(), old(q)@, line@),
        old(q).started() && old(q)@.len() < 256 ==> final(q)@ == old(q)@.push(line@),
        !old(q).started() || old(q)@.len() >= 256 ==> final(q)@ == old(q)@,
        final(q).started() == old(q).started(),
{
    if !q.started || q.lines.len() >= QUEUE_CAP {
        return;
    }
    q.lines.push_back(line);
    assert(q@ =~= old(q)@.push(line@));
}

impl DiagQueue {
    /// Whether the writer was started.
    pub closed spec fn started(&self) -> bool {
        self.started
    }

    /// Takes the oldest line.
    pub fn take(&mut self) -> (line: Option<String>)
        ensures
            line is Some <==> old(self)@.len() > 0,
            line is Some ==> line->0@ == old(self)@[0] && final(self)@ == old(self)@.skip(1),
            line is None ==> final(self)@ == old(self)@,
            final(self).started() == old(self).started(),
    {
        let line: Option<String> = self.lines.pop_front();
        proof {
            if line is Some {
                assert(self@ =~= old(self)@.skip(1));
            }
        }
        line
    }

    /// Drops all lines.
    pub fn clear(&mut self)
        ensures
            final(self)@ == Seq::<Seq<char>>::empty(),
            final(self).started() == old(self).started(),
    {
        self.lines = VecDeque::new();
        assert(self@ =~= Seq::<Seq<char>>::empty());
    }
}

/// A queue after a list of lines was offered.
pub open spec fn with_lines(started: bool, q: Seq<Seq<char>>, lines: Seq<Seq<char>>) -> Seq<
    Seq<char>,
>
    decreases lines.len(),
{
    if lines.len() == 0 {
        q
    } else {
        with_line(started, with_lines(started, q, lines.drop_last()), lines.last())
    }
}

/// A queue holds the first lines that come, as many as it has room for, in
/// their order; the rest are dropped. Before the writer is started it holds
/// none.
pub proof fn law_queue_keeps_the_first(lines: Seq<Seq<char>>)
    ensures
        with_lines(true, Seq::empty(), lines) == (if lines.len() <= QUEUE_CAP {
            lines
        } else {
            lines.take(QUEUE_CAP as int)
        }),
        with_lines(false, Seq::empty(), lines) == Seq::<Seq<char>>::empty(),
    decreases lines.len(),
{
    if lines.len() > 0 {
        let init = lines.drop_last();
        law_queue_keeps_the_first(init);
        assert(init.push(lines.last()) =~= lines);
        if init.len() >= QUEUE_CAP {
            assert(init.take(QUEUE_CAP as int) =~= lines.take(QUEUE_CAP as int));
            if init.len() == QUEUE_CAP {
                assert(init =~= lines.take(QUEUE_CAP as int));
            }
        }
    }
}

/// A character inside a JSON string.
pub open spec fn json_char(c: char) -> Seq<char> {
    if c == '"' {
        seq!['\\', '"']
    } else if c == '\\' {
        seq!['\\', '\\']
    } else if c == '\n' {
        seq!['\\', 'n']
    } else if c == '\r' {
        seq!['\\', 'r']
    } else if c == '\t' {
        seq!['\\', 't']
    } else if (c as u32) < 0x20 {
        seq!['\\', 'u'] + hex_fixed(c as nat, 4)
    } else {
        seq![c]
    }
}

/// A text inside a JSON string.
pub open spec fn json_text(s: Seq<char>) -> Seq<char>
    decreases s.len(),
{
    if s.len() == 0 {
        Seq::empty()
    } else {
        json_text(s.drop_last()) + json_char(s.last())
    }
}

/// The envelope of a line.
pub open spec fn envelope(s: Seq<char>) -> Seq<char> {
    "{\"msg\":\""@ + json_text(s) + "\"}"@
}

/// The envelope of a line: a JSON object with the line as its only member.
pub fn json_envelope(text: &str) -> (out: String)
    ensures
        out@ == envelope(text@),
{
    let mut out: String = "{\"msg\":\"".to_owned();
    let ghost head = out@;
    assert(text@.take(0) =~= Seq::<char>::empty());
    assert(head + json_text(Seq::empty()) =~= head);
    for ch in it: text.chars()
        invariant
            it.seq() == text@,
            head == "{\"msg\":\""@,
            out@ == head + json_text(text@.take(it.index() as int)),
    {
        let ghost before = out@;
        proof {
            lemma_char(ch);
        }
        if ch == '"' {
            out.push('\\');
            out.push('"');
        } else if ch == '\\' {
            out.push('\\');
            out.push('\\');
        } else if ch == '\n' {
            out.push('\\');
            out.push('n');
        } else if ch == '\r' {
            out.push('\\');
            out.push('r');
        } else if ch == '\t' {
            out.push('\\');
            out.push('t');
        } else if (ch as u32) < 0x20 {
            out.push('\\');
            out.push('u');
            push_hex_fixed(&mut out, ch as u32, 4);
        } else {
            out.push(ch);
        }
        assert(out@ =~= before + json_char(ch));
        assert(text@.take(it.index() as int + 1).drop_last() =~= text@.take(it.index() as int));
        assert(out@ =~= head + json_text(text@.take(it.index() as int + 1)));
    }
    assert(text@.take(text@.len() as int) =~= text@);
    out.append("\"}");
    out
}

/// The text that the inside of a JSON string stands for, if it is well
/// formed.
pub open spec fn json_value(s: Seq<char>) -> Option<Seq<char>>
    decreases s.len(),
{
    if s.len() == 0 {
        Some(Seq::empty())
    } else if s[0] == '"' || (s[0] as u32) < 0x20 {
        None
    } else if s[0] != '\\' {
        prefixed(s[0], json_value(s.skip(1)))
    } else if s.len() < 2 {
        None
    } else if s[1] == '"' || s[1] == '\\' || s[1] == '/' {
        prefixed(s[1], json_value(s.skip(2)))
    } else if s[1] == 'n' {
        prefixed('\n', json_value(s.skip(2)))
    } else if s[1] == 'r' {
        prefixed('\r', json_value(s.skip(2)))
    } else if s[1] == 't' {
        prefixed('\t', json_value(s.skip(2)))
    } else if s[1] == 'u' && s.len() >= 6 && is_number(s.subrange(2, 6), 16) {
        prefixed(number_value(s.subrange(2, 6), 16) as char, json_value(s.skip(6)))
    } else {
        None
    }
}

/// A character in front of a text, where there is a text.
pub open spec fn prefixed(c: char, rest: Option<Seq<char>>) -> Option<Seq<char>> {
    match rest {
        Some(s) => Some(seq![c] + s),
        None => None,
    }
}

proof fn lemma_json_front(s: Seq<char>)
    requires
        s.len() > 0,
    ensures
        json_text(s) == json_char(s[0]) + json_text(s.skip(1)),
    decreases s.len(),
{
    reveal_with_fuel(json_text, 2);
    if s.len() == 1 {
        assert(s.drop_last() =~= Seq::<char>::empty());
        assert(s.skip(1) =~= Seq::<char>::empty());
        assert(json_text(s) =~= json_char(s[0]) + json_text(s.skip(1)));
    } else {
        lemma_json_front(s.drop_last());
        assert(s.drop_last().skip(1) =~= s.skip(1).drop_last());
        assert(s.skip(1).last() == s.last());
        assert(json_text(s) =~= json_char(s[0]) + json_text(s.skip(1)));
    }
}

proof fn lemma_small_hex(n: nat)
    requires
        n < 0x20,
    ensures
        hex_fixed(n, 4).len() == 4,
        is_number(hex_fixed(n, 4), 16),
        number_value(hex_fixed(n, 4), 16) == n,
        forall|i: int| 0 <= i < 4 ==> (#[trigger] hex_fixed(n, 4)[i]) as u32 >= 0x20,
{
    let h1 = Seq::<char>::empty().push(digit(0));
    let h2 = h1.push(digit(0));
    let h3 = h2.push(digit((n / 16) as int));
    let h4 = h3.push(digit((n % 16) as int));
    reveal_with_fuel(hex_fixed, 5);
    reveal_with_fuel(number_value, 5);
    assert(n / 16 / 16 == 0);
    assert(n / 16 % 16 == n / 16);
    assert(hex_fixed(n, 4) =~= h4);
    assert(h4.drop_last() =~= h3);
    assert(h3.drop_last() =~= h2);
    assert(h2.drop_last() =~= h1);
    assert(h1.drop_last() =~= Seq::<char>::empty());
}

proof fn lemma_json_char(c: char, rest: Seq<char>)
    ensures
        json_value(json_char(c) + rest) == prefixed(c, json_value(rest)),
        forall|i: int| 0 <= i < json_char(c).len() ==> (#[trigger] json_char(c)[i]) as u32 >= 0x20,
{
    lemma_char(c);
    let e = json_char(c);
    let s = e + rest;
    if e.len() == 1 {
        assert(s.skip(1) =~= rest);
    } else if c == '"' || c == '\\' || c == '\n' || c == '\r' || c == '\t' {
        assert(s.skip(2) =~= rest);
        assert(s[0] == e[0] && s[1] == e[1]);
    } else {
        let h = hex_fixed(c as nat, 4);
        lemma_small_hex(c as nat);
        assert(s[0] == e[0] && s[1] == e[1]);
        assert(s.subrange(2, 6) =~= h);
        assert(s.skip(6) =~= rest);
        assert forall|i: int| 0 <= i < e.len() implies (#[trigger] e[i]) as u32 >= 0x20 by {
            if i >= 2 {
                assert(e[i] == h[i - 2]);
            }
        }
    }
}

proof fn lemma_json_text(s: Seq<char>)
    ensures
        json_value(json_text(s)) == Some(s),
        forall|i: int| 0 <= i < json_text(s).len() ==> (#[trigger] json_text(s)[i]) as u32 >= 0x20,
    decreases s.len(),
{
    if s.len() > 0 {
        let rest = json_text(s.skip(1));
        let e = json_char(s[0]);
        lemma_json_front(s);
        lemma_json_text(s.skip(1));
        lemma_json_char(s[0], rest);
        assert(seq![s[0]] + s.skip(1) =~= s);
        assert forall|i: int| 0 <= i < (e + rest).len() implies (#[trigger] (e + rest)[i]) as u32
            >= 0x20 by {
            if i < e.len() {
                assert((e + rest)[i] == e[i]);
            } else {
                assert((e + rest)[i] == rest[i - e.len()]);
            }
        }
    }
}

/// An envelope is one line of JSON, whatever the text, and reads back as the
/// text.
pub proof fn law_envelope_reads_back(s: Seq<char>)
    ensures
        json_value(json_text(s)) == Some(s),
        envelope(s) == "{\"msg\":\""@ + json_text(s) + "\"}"@,
        forall|i: int| 0 <= i < envelope(s).len() ==> (#[trigger] envelope(s)[i]) as u32 >= 0x20,
{
    lemma_json_text(s);
    reveal_strlit("{\"msg\":\"");
    reveal_strlit("\"}");
    let head = "{\"msg\":\""@;
    let body = json_text(s);
    let e = envelope(s);
    assert forall|i: int| 0 <= i < e.len() implies (#[trigger] e[i]) as u32 >= 0x20 by {
        if head.len() <= i < head.len() + body.len() {
            assert(e[i] == body[i - head.len()]);
        }
    }
}

/// What a pipe of a diagnostic console is looked for under.
pub const PIPE_PATTERN: &'static str = "\\\\.\\pipe\\mxc-diagnostics*";

/// What stands before the name of every pipe.
pub const PIPE_ROOT: &'static str = "\\\\.\\pipe\\";

/// The path of a pipe that was found under a name; none for an empty name.
pub open spec fn pipe_path(name: Seq<u16>) -> Option<Seq<char>> {
    let text = decode_utf16(until_nul(name));
    if text.len() == 0 {
        None
    } else {
        Some(PIPE_ROOT@ + text)
    }
}

/// The paths of the pipes that were found, in their order.
pub open spec fn pipe_paths(names: Seq<Seq<u16>>) -> Seq<Seq<char>>
    decreases names.len(),
{
    if names.len() == 0 {
        Seq::empty()
    } else {
        let paths = pipe_paths(names.drop_last());
        match pipe_path(names.last()) {
            Some(p) => paths.push(p),
            None => paths,
        }
    }
}

/// The paths to try, given the names that the search for pipes found. `None`
/// if there are none.
pub fn enumerate_pipes(names: &[Vec<u16>]) -> (r: Option<Vec<String>>)
    ensures
        ({
            let paths = pipe_paths(names@.map_values(|n: Vec<u16>| n@));
            &&& r is None <==> paths.len() == 0
            &&& r is Some ==> r->0@.map_values(|s: String| s@) == paths
        }),
{
    let ghost views = names@.map_values(|n: Vec<u16>| n@);
    let mut out: Vec<String> = Vec::new();
    let mut i: usize = 0;
    assert(out@.map_values(|s: String| s@) =~= pipe_paths(views.take(0)));
    while i < names.len()
        invariant
            i <= names.len(),
            views == names@.map_values(|n: Vec<u16>| n@),
            out@.map_values(|s: String| s@) == pipe_paths(views.take(i as int)),
        decreases names.len() - i,
    {
        let ghost before = out@.map_values(|s: String| s@);
        let name: String = wide_to_string(names[i].as_slice());
        assert(views.take(i + 1).drop_last() =~= views.take(i as int));
        assert(views.take(i + 1).last() == names@[i as int]@);
        if !is_empty(name.as_str()) {
            let mut path: String = PIPE_ROOT.to_owned();
            path.append(name.as_str());
            out.push(path);
            assert(out@.map_values(|s: String| s@) =~= before.push(path@));
        }
        i = i + 1;
    }
    assert(views.take(views.len() as int) =~= views);
    assert(out@.map_values(|s: String| s@).len() == out@.len());
    if out.len() == 0 {
        None
    } else {
        Some(out)
    }
}

/// The pause, in milliseconds, after a search for a pipe that found none.
pub const DISCOVERY_MS: u64 = 1000;

/// The pause, in milliseconds, of a writer that has nothing to write.
pub const IDLE_MS: u64 = 50;

/// The writer that drains the queue into a pipe.
#[derive(Debug, Clone, Copy, PartialEq, Eq, Structural)]
pub struct Writer {
    pub connected: bool,
}

/// What a writer does next.
#[derive(Debug)]
pub enum WriterAction {
    /// Search for a pipe and open it.
    Connect,
    /// Write this text.
    Write(String),
    /// Pause for this many milliseconds.
    Sleep(u64),
}

/// The writer at its start.
pub fn writer() -> (w: Writer)
    ensures
        w == (Writer { connected: false }),
{
    Writer { connected: false }
}

impl Writer {
    /// What to do next. A line that is to be written has left the queue.
    pub fn action(&self, q: &mut DiagQueue) -> (a: WriterAction)
        ensures
            final(q).started() == old(q).started(),
            a is Connect <==> !self.connected,
            a is Write <==> self.connected && old(q)@.len() > 0,
            a is Sleep ==> a->Sleep_0 == 50,
            if !self.connected {
                a is Connect && final(q)@ == old(q)@
            } else if old(q)@.len() > 0 {
                a is Write && a->Write_0@ == envelope(old(q)@[0]) + "\n"@ && final(q)@
                    == old(q)@.skip(1)
            } else {
                a == WriterAction::Sleep(IDLE_MS) && final(q)@ == old(q)@
            },
    {
        if !self.connected {
            return WriterAction::Connect;
        }
        match q.take() {
            Some(line) => {
                let mut json: String = json_envelope(line.as_str());
                json.append("\n");
                WriterAction::Write(json)
            },
            None => WriterAction::Sleep(IDLE_MS),
        }
    }

    /// Takes note whether a pipe was opened. If not, the result is the pause
    /// before the next search. What waits was left while there was no pipe, and
    /// is dropped either way.
    pub fn searched(&mut self, opened: bool, q: &mut DiagQueue) -> (pause_ms: Option<u64>)
        ensures
            final(self).connected == (old(self).connected || opened),
            pause_ms == (if opened {
                None
            } else {
                Some(DISCOVERY_MS)
            }),
            opened ==> pause_ms is None,
            !opened ==> pause_ms == Some(1000u64),
            final(q)@ == Seq::<Seq<char>>::empty(),
            final(q).started() == old(q).started(),
    {
        q.clear();
        if opened {
            self.connected = true;
            None
        } else {
            Some(DISCOVERY_MS)
        }
    }

    /// Takes note whether a text was written. A broken pipe is given up.
    pub fn written(&mut self, ok: bool)
        ensures
            *final(self) == (Writer { connected: old(self).connected && ok }),
    {
        if !ok {
            self.connected = false;
        }
    }
}

/// What happens to a queue and its writer.
pub enum DiagEvent {
    /// A line is offered.
    Emit(Seq<char>),
    /// A search for a pipe ends.
    Searched(bool),
    /// The oldest line is taken to be written.
    Taken,
    /// A text was written, or not.
    Written(bool),
}

/// A started queue with its writer: the lines that wait, and whether there is a
/// pipe.
pub type DiagState = (Seq<Seq<char>>, bool);

/// A started queue and its writer after an event. A line is taken only where
/// there is a pipe.
pub open spec fn after_event(s: DiagState, e: DiagEvent) -> DiagState {
    match e {
        DiagEvent::Emit(line) => (with_line(true, s.0, line), s.1),
        DiagEvent::Searched(opened) => (Seq::empty(), s.1 || opened),
        DiagEvent::Taken => if s.1 && s.0.len() > 0 {
            (s.0.skip(1), s.1)
        } else {
            s
        },
        DiagEvent::Written(ok) => (s.0, s.1 && ok),
    }
}

/// A started queue and its writer after a list of events.
pub open spec fn after_events(events: Seq<DiagEvent>) -> DiagState
    decreases events.len(),
{
    if events.len() == 0 {
        (Seq::empty(), false)
    } else {
        after_event(after_events(events.drop_last()), events.last())
    }
}

/// Whether a line was offered after the last search for a pipe.
pub open spec fn emitted_since_search(events: Seq<DiagEvent>, line: Seq<char>) -> bool
    decreases events.len(),
{
    if events.len() == 0 {
        false
    } else {
        match events.last() {
            DiagEvent::Searched(_) => false,
            DiagEvent::Emit(l) => l == line || emitted_since_search(events.drop_last(), line),
            _ => emitted_since_search(events.drop_last(), line),
        }
    }
}

/// Lines are dropped while there is no pipe: what waits, and so what is
/// written, came after the search that opened the pipe.
pub proof fn law_disconnected_lines_are_dropped(events: Seq<DiagEvent>)
    ensures
        forall|i: int|
            0 <= i < after_events(events).0.len() ==> emitted_since_search(
                events,
                #[trigger] after_events(events).0[i],
            ),
        after_events(events).0.len() <= QUEUE_CAP,
    decreases events.len(),
{
    if events.len() > 0 {
        let init = events.drop_last();
        law_disconnected_lines_are_dropped(init);
        let before = after_events(init).0;
        let after = after_events(events).0;
        assert forall|i: int| 0 <= i < after.len() implies emitted_since_search(
            events,
            #[trigger] after[i],
        ) by {
            match events.last() {
                DiagEvent::Taken => {
                    if after_events(init).1 && before.len() > 0 {
                        assert(after[i] == before[i + 1]);
                    } else {
                        assert(after[i] == before[i]);
                    }
                },
                DiagEvent::Emit(line) => {
                    if i < before.len() {
                        assert(after[i] == before[i]);
                    }
                },
                _ => {},
            }
        }
    }
}

/// A line that is offered is kept behind those that wait, unless there is no
/// writer or 256 lines wait already.
pub proof fn law_offered_line(started: bool, q: Seq<Seq<char>>, line: Seq<char>)
    ensures
        started && q.len() < 256 ==> with_line(started, q, line) == q.push(line),
        !started || q.len() >= 256 ==> with_line(started, q, line) == q,
{
}

/// Inside a JSON string the quotation mark, the backslash and the control
/// characters are escaped, the usual three of them by a letter and the others by
/// four hexadecimal digits; every other character stands as it is.
pub proof fn law_json_escapes(c: char, s: Seq<char>, t: Seq<char>)
    ensures
        json_char('"') == seq!['\\', '"'],
        json_char('\\') == seq!['\\', '\\'],
        json_char('\n') == seq!['\\', 'n'],
        json_char('\r') == seq!['\\', 'r'],
        json_char('\t') == seq!['\\', 't'],
        (c as int) < 32 && c != '\n' && c != '\r' && c != '\t' ==> json_char(c) == seq!['\\', 'u']
            + hex_fixed(c as nat, 4),
        c as int >= 32 && c != '"' && c != '\\' ==> json_char(c) == seq![c],
        json_text(s + t) == json_text(s) + json_text(t),
        json_text(seq![c]) == json_char(c),
    decreases t.len(),
{
    lemma_char(c);
    reveal_with_fuel(json_text, 2);
    assert(seq![c].drop_last() =~= Seq::<char>::empty());
    assert(json_text(seq![c]) =~= json_char(c));
    if t.len() == 0 {
        assert(s + t =~= s);
        assert(json_text(s + t) =~= json_text(s) + json_text(t));
    } else {
        law_json_escapes(c, s, t.drop_last());
        assert((s + t).drop_last() =~= s + t.drop_last());
        assert(json_text(s + t) =~= json_text(s) + json_text(t));
    }
}

/// A pipe is tried under the name that was found for it, up to its first zero;
/// one without a name is not tried, and the order is that in which they were
/// found.
pub proof fn law_pipe_paths(a: Seq<Seq<u16>>, b: Seq<Seq<u16>>, name: Seq<u16>)
    ensures
        pipe_paths(a + b) == pipe_paths(a) + pipe_paths(b),
        name.len() == 0 || name[0] == 0 ==> pipe_paths(seq![name]).len() == 0,
        name.len() > 0 && name[0] != 0 ==> pipe_paths(seq![name]) == seq![
            "\\\\.\\pipe\\"@ + decode_utf16(until_nul(name)),
        ],
    decreases b.len(),
{
    reveal_with_fuel(pipe_paths, 2);
    assert(seq![name].drop_last() =~= Seq::<Seq<u16>>::empty());
    if name.len() > 0 && name[0] != 0 {
        let front = until_nul(name);
        assert(front[0] == name[0]);
        assert(decode_utf16(front).len() > 0);
        assert(pipe_paths(seq![name]) =~= seq!["\\\\.\\pipe\\"@ + decode_utf16(front)]);
    }
    if b.len() == 0 {
        assert(a + b =~= a);
        assert(pipe_paths(a + b) =~= pipe_paths(a) + pipe_paths(b));
    } else {
        law_pipe_paths(a, b.drop_last(), name);
        assert((a + b).drop_last() =~= a + b.drop_last());
        assert(pipe_paths(a + b) =~= pipe_paths(a) + pipe_paths(b));
    }
}

/// The envelope of a line is a JSON object with one member, and of two lines it
/// is one object around both.
pub proof fn law_envelope(s: Seq<char>, t: Seq<char>)
    ensures
        envelope(s) == "{\"msg\":\""@ + json_text(s) + "\"}"@,
        envelope(s + t) == "{\"msg\":\""@ + json_text(s) + json_text(t) + "\"}"@,
{
    law_json_escapes(' ', s, t);
    assert("{\"msg\":\""@ + (json_text(s) + json_text(t)) =~= "{\"msg\":\""@ + json_text(s)
        + json_text(t));
}

} // verus!
