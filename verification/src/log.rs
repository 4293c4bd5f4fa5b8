//! Log lines, and the notes that the other modules leave for the log and for
//! the diagnostic console.

use crate::grammar::{law_decimal_denotes_the_number, law_fixed_width_denotes_the_number};
use crate::ip::number_value;
use crate::text::{decimal, decimal_fixed, push_decimal, push_decimal_fixed};
use vstd::arithmetic::power::pow;
use vstd::prelude::*;

verus! {

/// Where log lines go: the console, or what stands for the event log. The lines
/// are the same.
#[derive(Debug, Clone, Copy, PartialEq, Eq, Structural)]
pub struct LogMode {
    pub eventlog: bool,
}

/// Logging to the console.
pub fn init_console() -> (m: LogMode)
    ensures
        !m.eventlog,
{
    LogMode { eventlog: false }
}

/// Logging as a service.
pub fn init_eventlog() -> (m: LogMode)
    ensures
        m.eventlog,
{
    LogMode { eventlog: true }
}

/// A time: whole seconds, a point, and at least three digits of milliseconds.
pub open spec fn timestamp(secs: u64, ms: u32) -> Seq<char> {
    decimal(secs as nat) + "."@ + if ms < 1000 {
        decimal_fixed(ms as nat, 3)
    } else {
        decimal(ms as nat)
    }
}

/// The text of a time.
pub fn chrono_like_now(secs: u64, ms: u32) -> (s: String)
    ensures
        s@ == timestamp(secs, ms),
{
    let mut s: String = String::new();
    push_decimal(&mut s, secs);
    s.append(".");
    if ms < 1000 {
        push_decimal_fixed(&mut s, ms, 3);
    } else {
        push_decimal(&mut s, ms as u64);
    }
    assert(s@ =~= timestamp(secs, ms));
    s
}

/// What marks the lines of the service.
pub const PREFIX: &'static str = "[mxc-service]";

/// A log line. It is marked wherever it goes.
pub open spec fn log_line(time: Seq<char>, level: Seq<char>, msg: Seq<char>) -> Seq<char> {
    time + " "@ + PREFIX@ + level + " "@ + msg
}

fn emit(time: &str, level: &str, msg: &str) -> (s: String)
    ensures
        s@ == log_line(time@, level@, msg@),
{
    let mut s: String = time.to_owned();
    s.append(" ");
    s.append(PREFIX);
    s.append(level);
    s.append(" ");
    s.append(msg);
    assert(s@ =~= log_line(time@, level@, msg@));
    s
}

/// The line for an event of no concern.
pub fn info(_mode: LogMode, time: &str, msg: &str) -> (s: String)
    ensures
        s@ == log_line(time@, "INFO "@, msg@),
{
    emit(time, "INFO ", msg)
}

/// The line for an event that somebody should look at.
pub fn warn(_mode: LogMode, time: &str, msg: &str) -> (s: String)
    ensures
        s@ == log_line(time@, "WARN "@, msg@),
{
    emit(time, "WARN ", msg)
}

/// The line for a failure.
pub fn error(_mode: LogMode, time: &str, msg: &str) -> (s: String)
    ensures
        s@ == log_line(time@, "ERROR"@, msg@),
{
    emit(time, "ERROR", msg)
}

/// Something to be told: a log line of some level, or a diagnostic line.
#[derive(Debug, Clone, PartialEq, Eq)]
pub enum Note {
    Info(String),
    Warn(String),
    Error(String),
    Diag(String),
}

/// A note with its text as a sequence of characters.
pub enum NoteView {
    Info(Seq<char>),
    Warn(Seq<char>),
    Error(Seq<char>),
    Diag(Seq<char>),
}

impl View for Note {
    type V = NoteView;

    open spec fn view(&self) -> NoteView {
        match *self {
            Note::Info(s) => NoteView::Info(s@),
            Note::Warn(s) => NoteView::Warn(s@),
            Note::Error(s) => NoteView::Error(s@),
            Note::Diag(s) => NoteView::Diag(s@),
        }
    }
}

/// The views of a list of notes.
pub open spec fn note_views(notes: Seq<Note>) -> Seq<NoteView> {
    notes.map_values(|n: Note| n@)
}

/// Leaves a note.
pub fn note(notes: &mut Vec<Note>, n: Note)
    ensures
        note_views(final(notes)@) == note_views(old(notes)@).push(n@),
{
    notes.push(n);
    assert(note_views(notes@) =~= note_views(old(notes)@).push(n@));
}

/// A time is its seconds, a point, and its milliseconds in three digits; where
/// there are more of them than a second has, in as many digits as they take.
pub proof fn law_timestamp(secs: u64, ms: u32)
    ensures
        ({
            let front = decimal(secs as nat) + seq!['.'];
            let rest = timestamp(secs, ms).skip(front.len() as int);
            &&& timestamp(secs, ms).take(front.len() as int) == front
            &&& number_value(rest, 10) == ms
            &&& ms < 1000 ==> rest.len() == 3
            &&& ms >= 1000 ==> rest == decimal(ms as nat)
        }),
{
    reveal_strlit(".");
    let front = decimal(secs as nat) + seq!['.'];
    assert("."@ =~= seq!['.']);
    let t = timestamp(secs, ms);
    assert(t.take(front.len() as int) =~= front);
    law_fixed_width_denotes_the_number(ms as nat, 3);
    law_decimal_denotes_the_number(ms as nat, Seq::empty());
    assert(pow(10, 3) == 1000) by {
        reveal_with_fuel(pow, 4);
    }
    if ms < 1000 {
        assert(t.skip(front.len() as int) =~= decimal_fixed(ms as nat, 3));
        assert(ms as int % 1000 == ms as int);
    } else {
        assert(t.skip(front.len() as int) =~= decimal(ms as nat));
    }
}

/// A log line is the time, the mark of the service with the level, and the
/// message, and of two messages in a row it is the line of the first and the
/// second.
pub proof fn law_log_line(time: Seq<char>, level: Seq<char>, msg: Seq<char>, more: Seq<char>)
    ensures
        log_line(time, level, msg) == time + " [mxc-service]"@ + level + " "@ + msg,
        log_line(time, level, msg + more) == log_line(time, level, msg) + more,
{
    reveal_strlit(" ");
    reveal_strlit("[mxc-service]");
    reveal_strlit(" [mxc-service]");
    assert(" "@ + "[mxc-service]"@ =~= " [mxc-service]"@);
    assert(log_line(time, level, msg) =~= time + (" "@ + "[mxc-service]"@) + level + " "@ + msg);
    assert(log_line(time, level, msg + more) =~= log_line(time, level, msg) + more);
}

/// The views of notes are those of each, in their order, and keep the level and
/// the text.
pub proof fn law_note_views(notes: Seq<Note>, i: int, s: String)
    requires
        0 <= i < notes.len(),
    ensures
        note_views(notes).len() == notes.len(),
        note_views(notes)[i] == notes[i]@,
        Note::Info(s)@ == NoteView::Info(s@),
        Note::Warn(s)@ == NoteView::Warn(s@),
        Note::Error(s)@ == NoteView::Error(s@),
        Note::Diag(s)@ == NoteView::Diag(s@),
{
}

} // verus!
