use mide_core::{
    raw_line_output, terminal_output, CoreError, Event, ExitOutcome, StreamKind, Supervisor, line_output,
    spawn_failed,
};

fn exit_events(events: &[Event], id: &str) -> usize {
    events
        .iter()
        .filter(|e| match e {
            Event::Exit { id: i, .. } | Event::Error { id: i, .. } => i == id,
            _ => false,
        })
        .count()
}

#[test]
fn interactive_session_round_trip() {
    let mut sup = Supervisor::new();
    assert_eq!(sup.open_session("t1".to_string(), 4242, 24, 80), Ok(()));
    assert!(sup.is_live("t1"));
    assert_eq!(sup.write("t1", b"echo hi\n"), Ok(()));
    assert_eq!(sup.take_input("t1"), Ok(b"echo hi\n".to_vec()));
    let out = terminal_output("t1".to_string(), b"echo hi\r\nhi\r\n$ ");
    match &out {
        Event::Output { id, stream, chunk } => {
            assert_eq!(id, "t1");
            assert_eq!(*stream, StreamKind::Terminal);
            assert!(chunk.contains("hi"));
        }
        _ => panic!("expected an output event"),
    }
    assert_eq!(sup.cancel("t1"), Ok(4242));
    let mut events = Vec::new();
    if let Some(e) = sup.finish("t1".to_string(), ExitOutcome::Exited(None)) {
        events.push(e);
    }
    if let Some(e) = sup.finish("t1".to_string(), ExitOutcome::Exited(None)) {
        events.push(e);
    }
    assert_eq!(exit_events(&events, "t1"), 1);
    assert_eq!(events[0], Event::Exit { id: "t1".to_string(), code: None });
    assert!(!sup.is_live("t1"));
    assert!(sup.lookup_session("t1").is_none());
    assert_eq!(sup.write("t1", b"x"), Err(CoreError::NotFound));
}

#[test]
fn streaming_false_exits_once_with_nonzero_code() {
    let mut sup = Supervisor::new();
    assert_eq!(sup.begin_streaming("r1".to_string(), Ok(77)), Ok(None));
    assert!(sup.is_live("r1"));
    let mut events = Vec::new();
    if let Some(e) = sup.finish("r1".to_string(), ExitOutcome::Exited(Some(1))) {
        events.push(e);
    }
    assert_eq!(events, vec![Event::Exit { id: "r1".to_string(), code: Some(1) }]);
    assert!(!events.iter().any(|e| matches!(e, Event::Error { .. })));
    assert!(!sup.is_live("r1"));
}

#[test]
fn streaming_spawn_failure_is_an_error_event_without_entry() {
    let mut sup = Supervisor::new();
    let e = sup.begin_streaming("r2".to_string(), Err("No such file or directory (os error 2)".to_string()));
    assert_eq!(
        e,
        Ok(Some(Event::Error {
            id: "r2".to_string(),
            message: "No such file or directory (os error 2)".to_string()
        }))
    );
    assert!(!sup.is_live("r2"));
    assert_eq!(sup.cancel("r2"), Err(CoreError::NotFound));
}

#[test]
fn resize_unknown_session_is_not_found() {
    let mut sup = Supervisor::new();
    assert_eq!(sup.resize("ghost", 30, 100), Err(CoreError::NotFound));
    assert!(!sup.is_live("ghost"));
    assert_eq!(sup.finish("ghost".to_string(), ExitOutcome::Exited(Some(0))), None);
}

#[test]
fn resize_live_session_keeps_it_live() {
    let mut sup = Supervisor::new();
    sup.open_session("t2".to_string(), 5, 24, 80).unwrap();
    assert_eq!(sup.resize("t2", 40, 120), Ok(()));
    let session = sup.lookup_session("t2").unwrap();
    assert_eq!((session.rows, session.cols, session.pid), (40, 120, 5));
    assert_eq!(sup.cancel("t2"), Ok(5));
}

#[test]
fn writes_are_delivered_in_order() {
    let mut sup = Supervisor::new();
    sup.open_session("t3".to_string(), 9, 24, 80).unwrap();
    sup.write("t3", b"ls").unwrap();
    sup.write("t3", b" -la\n").unwrap();
    assert_eq!(sup.take_input("t3"), Ok(b"ls -la\n".to_vec()));
    assert_eq!(sup.take_input("t3"), Ok(Vec::new()));
}

#[test]
fn duplicate_ids_are_refused() {
    let mut sup = Supervisor::new();
    sup.open_session("a".to_string(), 1, 24, 80).unwrap();
    assert_eq!(sup.open_session("a".to_string(), 2, 24, 80), Err(CoreError::AlreadyExists));
    assert_eq!(sup.track("a".to_string(), 3), Err(CoreError::AlreadyExists));
    assert_eq!(sup.cancel("a"), Ok(1));
    assert_eq!(sup.begin_streaming("a".to_string(), Ok(4)), Err(CoreError::AlreadyExists));
    assert_eq!(sup.begin_streaming("a".to_string(), Err("x".to_string())), Err(CoreError::AlreadyExists));
    assert_eq!(sup.cancel("a"), Ok(1));
}

#[test]
fn kill_racing_natural_exit_gives_one_terminal_event() {
    let mut sup = Supervisor::new();
    sup.open_session("k".to_string(), 11, 24, 80).unwrap();
    let mut events = Vec::new();
    if let Some(e) = sup.finish("k".to_string(), ExitOutcome::Exited(Some(0))) {
        events.push(e);
    }
    assert_eq!(sup.cancel("k"), Err(CoreError::NotFound));
    if let Some(e) = sup.finish("k".to_string(), ExitOutcome::WaitFailed("gone".to_string())) {
        events.push(e);
    }
    assert_eq!(exit_events(&events, "k"), 1);
    assert!(!sup.is_live("k"));
}

#[test]
fn wait_failure_is_reported_as_error_event() {
    let mut sup = Supervisor::new();
    sup.track("w".to_string(), 12).unwrap();
    let e = sup.finish("w".to_string(), ExitOutcome::WaitFailed("interrupted".to_string()));
    assert_eq!(e, Some(Event::Error { id: "w".to_string(), message: "interrupted".to_string() }));
}

#[test]
fn event_channels_follow_the_id() {
    let out = line_output("r1".to_string(), StreamKind::Stdout, "line".to_string());
    assert_eq!(out.channel(), "term-data-r1");
    assert!(!out.is_terminal());
    let exit = Event::Exit { id: "r1".to_string(), code: Some(0) };
    assert_eq!(exit.channel(), "term-exit-r1");
    assert!(exit.is_terminal());
    let err = spawn_failed("r1".to_string(), "boom".to_string());
    assert_eq!(err.channel(), "term-error-r1");
}

#[test]
fn terminal_output_replaces_invalid_bytes() {
    let e = terminal_output("t".to_string(), &[b'a', 0xff, b'b']);
    assert_eq!(
        e,
        Event::Output { id: "t".to_string(), stream: StreamKind::Terminal, chunk: "a\u{FFFD}b".to_string() }
    );
    let e = terminal_output("t".to_string(), &[]);
    assert_eq!(e, Event::Output { id: "t".to_string(), stream: StreamKind::Terminal, chunk: String::new() });
}

#[test]
fn live_ids_cover_both_tables() {
    let mut sup = Supervisor::new();
    assert!(sup.live_ids().is_empty());
    sup.open_session("s".to_string(), 1, 24, 80).unwrap();
    sup.track("p".to_string(), 2).unwrap();
    let mut ids = sup.live_ids();
    ids.sort();
    assert_eq!(ids, vec!["p".to_string(), "s".to_string()]);
    sup.finish("s".to_string(), ExitOutcome::Exited(Some(0)));
    assert_eq!(sup.live_ids(), vec!["p".to_string()]);
}

#[test]
fn raw_lines_drop_endings_and_decode_lossily() {
    let e = raw_line_output("r".to_string(), StreamKind::Stdout, b"ok\r\n");
    assert_eq!(e, Event::Output { id: "r".to_string(), stream: StreamKind::Stdout, chunk: "ok".to_string() });
    let e = raw_line_output("r".to_string(), StreamKind::Stderr, &[0x66, 0xff, b'\n']);
    assert_eq!(e, Event::Output { id: "r".to_string(), stream: StreamKind::Stderr, chunk: "f\u{FFFD}".to_string() });
    let e = raw_line_output("r".to_string(), StreamKind::Stdout, b"last\r");
    assert_eq!(e, Event::Output { id: "r".to_string(), stream: StreamKind::Stdout, chunk: "last\r".to_string() });
}
