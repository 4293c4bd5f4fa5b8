use mxc_service::diag::{
    emit, enumerate_pipes, init, json_envelope, queue, writer, Writer, WriterAction, PIPE_PATTERN,
    QUEUE_CAP,
};
use mxc_service::log::{chrono_like_now, error, info, init_console, init_eventlog, warn};
use mxc_service::wide::to_wide;

#[test]
fn json_envelope_escapes_quotes_and_newlines() {
    let env = json_envelope("hello \"world\"\nline 2");
    assert_eq!(env, r#"{"msg":"hello \"world\"\nline 2"}"#);
}

#[test]
fn json_envelope_escapes_control_chars() {
    let env = json_envelope("a\x01b");
    assert_eq!(env, r#"{"msg":"a\u0001b"}"#);
}

#[test]
fn emit_does_not_panic_without_init() {
    let mut q = queue();
    emit(&mut q, "test message without init".to_string());
    assert!(q.take().is_none());
}

#[test]
fn writer_is_started_once() {
    let mut q = queue();
    assert!(init(&mut q));
    assert!(!init(&mut q));
    emit(&mut q, "one".to_string());
    assert!(!init(&mut q));
    assert_eq!(q.take().as_deref(), Some("one"));
}

#[test]
fn json_envelope_escapes_the_rest() {
    assert_eq!(
        json_envelope("\\\r\t\x1f é"),
        "{\"msg\":\"\\\\\\r\\t\\u001f é\"}"
    );
    assert_eq!(json_envelope(""), "{\"msg\":\"\"}");
}

#[test]
fn full_queue_drops_what_comes() {
    let mut q = queue();
    init(&mut q);
    for i in 0..QUEUE_CAP + 3 {
        emit(&mut q, format!("{i}"));
    }
    for i in 0..QUEUE_CAP {
        assert_eq!(q.take().unwrap(), format!("{i}"));
    }
    assert!(q.take().is_none());
}

#[test]
fn writer_connects_then_drains() {
    let mut q = queue();
    init(&mut q);
    let mut w = writer();
    emit(&mut q, "before the pipe".to_string());
    assert!(matches!(w.action(&mut q), WriterAction::Connect));
    assert_eq!(w.searched(true, &mut q), None);
    assert!(matches!(w.action(&mut q), WriterAction::Sleep(50)));
    emit(&mut q, "one".to_string());
    match w.action(&mut q) {
        WriterAction::Write(s) => assert_eq!(s, "{\"msg\":\"one\"}\n"),
        other => panic!("{other:?}"),
    }
    w.written(true);
    assert!(matches!(w.action(&mut q), WriterAction::Sleep(50)));
    emit(&mut q, "two".to_string());
    assert!(matches!(w.action(&mut q), WriterAction::Write(_)));
    w.written(false);
    assert!(matches!(w.action(&mut q), WriterAction::Connect));
}

#[test]
fn search_is_repeated_every_second() {
    let mut q = queue();
    init(&mut q);
    let mut w = writer();
    for _ in 0..7 {
        emit(&mut q, "nobody listens".to_string());
        assert_eq!(w.searched(false, &mut q), Some(1000));
        assert!(q.take().is_none());
    }
    assert_eq!(w.searched(true, &mut q), None);
    assert_eq!(w, Writer { connected: true });
}

#[test]
fn pipes_are_found_by_name() {
    assert_eq!(PIPE_PATTERN, r"\\.\pipe\mxc-diagnostics*");
    let names = vec![to_wide("mxc-diagnostics-1"), vec![0u16; 4], to_wide("mxc-diagnostics-é")];
    assert_eq!(
        enumerate_pipes(&names).unwrap(),
        vec![r"\\.\pipe\mxc-diagnostics-1", r"\\.\pipe\mxc-diagnostics-é"]
    );
    assert!(enumerate_pipes(&[vec![0]]).is_none());
    assert!(enumerate_pipes(&[]).is_none());
}

#[test]
fn log_lines() {
    let t = chrono_like_now(1700000000, 7);
    assert_eq!(t, "1700000000.007");
    assert_eq!(chrono_like_now(0, 999), "0.999");
    assert_eq!(
        info(init_console(), &t, "hello"),
        "1700000000.007 [mxc-service]INFO  hello"
    );
    assert_eq!(
        warn(init_console(), &t, "hello"),
        "1700000000.007 [mxc-service]WARN  hello"
    );
    assert_eq!(
        warn(init_eventlog(), &t, "hello"),
        "1700000000.007 [mxc-service]WARN  hello"
    );
    assert_eq!(error(init_console(), &t, "hello"), "1700000000.007 [mxc-service]ERROR hello");
}
