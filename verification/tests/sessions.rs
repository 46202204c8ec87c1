use gimme_a_chance::agent::{format_line, AgentSession, RefreshOutcome};
use gimme_a_chance::context_meter::{
    agent_prompt_base_tokens, count_tokens, gauge, read_gauge, Anchor,
};
use gimme_a_chance::json::json_text;
use gimme_a_chance::lang::Language;
use gimme_a_chance::storage::{
    build_name, check_deletable, check_injectable, check_journal_mode, check_one_row, mark_live, meta_text, migrate,
    none_if_empty, session_not_found, stored_t_s, writer_step, Event, MetaField, MetaValue, Msg,
    SessionLog, SessionSummary, WriterStep,
};

const S: u64 = 1_000_000_000;

#[test]
fn lines_carry_clock_and_label() {
    assert_eq!(format_line(0, "me", "hi"), "[00:00] You: hi");
    assert_eq!(format_line(754, "interviewer", "x"), "[12:34] Interviewer: x");
    assert_eq!(format_line(6000, "screen", "x"), "[100:00] Screen: x");
    assert_eq!(format_line(5, "clipboard", "x"), "[00:05] Clipboard: x");
}

#[test]
fn transcript_is_append_only() {
    let mut s = AgentSession::new(10 * S);
    assert_eq!(s.transcript_text(), (String::new(), 0));
    let (t_s, due) = s.push("interviewer", "hello there", 13 * S).unwrap();
    assert_eq!((t_s, due), (3, false));
    let first = s.transcript_text().0;
    assert_eq!(first, "[00:03] Interviewer: hello there");
    s.push("me", "hi", 75 * S).unwrap();
    let (both, lines) = s.transcript_text();
    assert_eq!(lines, 2);
    assert_eq!(both, "[00:03] Interviewer: hello there\n[01:05] You: hi");
    assert!(both.starts_with(&first));
    assert_eq!(s.chars_total(), 13);
    let tokens = count_tokens(&format_line(3, "interviewer", "hello there")).unwrap()
        + count_tokens(&format_line(65, "me", "hi")).unwrap();
    assert_eq!(s.line_tokens_total(), tokens as u64 + 2);
    assert_eq!(s.elapsed_s(9 * S), 0);
}

#[test]
fn tokens_are_counted() {
    assert_eq!(count_tokens(""), Some(0));
    assert_eq!(count_tokens("hello world"), Some(2));
    assert_eq!(count_tokens("<|endoftext|>"), Some(1));
}

#[test]
fn refresh_becomes_due_and_covers_the_delta() {
    let mut s = AgentSession::new(0);
    assert!(s.begin_refresh().is_none());
    s.append("me", "short", 1, 1);
    let long = "x".repeat(10_000);
    assert!(s.append("interviewer", &long, 2, 10));
    let d = s.begin_refresh().unwrap();
    assert_eq!(d.prev_state, "");
    assert_eq!(d.lines, format!("You: short\nInterviewer: {long}"));
    assert_eq!(d.upto, 2);
    assert_eq!(d.chars, d.lines.len() as u64);
    // Only one at a time.
    assert!(s.begin_refresh().is_none());
    s.append("me", "meanwhile", 3, 1);
    s.end_refresh(RefreshOutcome::Done("state".into()), d.upto, 1000);
    assert_eq!(s.state_block(), "state");
    let d = s.snapshot_delta().unwrap();
    assert_eq!(d.lines, "You: meanwhile");
    assert_eq!(d.prev_state, "state");
    // A failure waits for more to be said.
    s.begin_refresh().unwrap();
    s.end_refresh(RefreshOutcome::Failed, 3, 2000);
    assert_eq!(s.state_block(), "state");
    assert!(s.refresh_if_stale(5000).is_none());
    s.append("me", &"y".repeat(1_200), 4, 1);
    assert!(!s.needs_refresh(1299));
    assert!(s.needs_refresh(1300));
    assert!(s.refresh_if_stale(1300).is_some());
}

#[test]
fn state_document_is_clamped() {
    let mut s = AgentSession::new(0);
    let long = format!("{}é", "x".repeat(7_999));
    s.commit_state(long, 0, 1);
    assert_eq!(s.state_block().len(), 7_999);
    s.commit_state("é".repeat(4_000), 0, 1);
    assert_eq!(s.state_block().len(), 8_000);
}

#[test]
fn ingested_lines_become_events() {
    let mut s = AgentSession::new(0);
    assert!(s.push_line("me", "  \n", S).is_none());
    let i = s.push_line("interviewer", " Why Rust? ", 2 * S).unwrap();
    assert_eq!(i.event.kind, "transcript");
    assert_eq!(i.event.speaker, Some("interviewer"));
    assert_eq!(i.event.content, "Why Rust?");
    assert_eq!(i.event.t_s, 2);
    assert!(i.wakes_press && !i.refresh_due);
    let i = s.push_line("screen", "code", 3 * S).unwrap();
    assert_eq!((i.event.kind, i.event.speaker), ("screen", None));
    assert!(!i.wakes_press);
    let i = s.push_line_tagged("clipboard", "clipboard_stealth", "clip", 4 * S).unwrap();
    assert_eq!(i.event.kind, "clipboard_stealth");
    assert_eq!(s.transcript_text().1, 3);
}

#[test]
fn meter_reads_anchor_and_estimate() {
    let none = Anchor { prompt_tokens: 0, line_tokens: 0 };
    let g = gauge(none, 100, 50, 1_000);
    assert_eq!((g.used, g.pending, g.window), (162, 162, 1_000));
    let anchor = Anchor { prompt_tokens: 500, line_tokens: 80 };
    let g = gauge(anchor, 100, 0, 1_000);
    assert_eq!((g.used, g.pending), (520, 20));
    assert_eq!(gauge(anchor, 80, 0, 1).pending, 0);
    assert_eq!(gauge(anchor, 10, 0, 1).used, 500);
    let base = agent_prompt_base_tokens(Language::English, "").unwrap();
    let g = read_gauge(none, 7, Language::English, "", 9).unwrap();
    assert_eq!(g.used, base + 7 + 12);
    assert!(agent_prompt_base_tokens(Language::English, "doc").unwrap() > base);
    assert!(read_gauge(none, u64::MAX, Language::English, "", 9).is_none());
    let full = Anchor { prompt_tokens: 2, line_tokens: 0 };
    assert!(read_gauge(full, u64::MAX, Language::Spanish, "", 9).is_none());
}

#[test]
fn notes_are_json() {
    let fields = vec![
        MetaField { name: "question".into(), value: MetaValue::Text("a \"b\"".into()) },
        MetaField { name: "tokens".into(), value: MetaValue::Count(12) },
    ];
    let s = meta_text(&fields);
    assert_eq!(s, r#"{"question":"a \"b\"","tokens":12}"#);
    assert_eq!(json_text(&s, "/question"), Some("a \"b\"".to_string()));
    assert_eq!(meta_text(&Vec::new()), "{}");
}

#[test]
fn clocks_fit_the_database() {
    assert_eq!(stored_t_s(42), 42);
    assert_eq!(stored_t_s(u64::MAX), i64::MAX);
}

#[test]
fn writer_stops_on_shutdown() {
    let event = Event {
        kind: "answer",
        speaker: None,
        content: "x".into(),
        t_s: 1,
        meta: None,
    };
    match writer_step(Some(Msg::Event(event))) {
        WriterStep::Insert(e) => assert_eq!(e.content, "x"),
        WriterStep::End => panic!("an event is inserted"),
    }
    assert!(matches!(writer_step(Some(Msg::Shutdown)), WriterStep::End));
    assert!(matches!(writer_step(None), WriterStep::End));
}

#[test]
fn log_has_one_session_and_one_writer() {
    let event = || Event { kind: "answer", speaker: None, content: "x".into(), t_s: 1, meta: None };
    let mut log = SessionLog::new();
    assert_eq!(log.current_session_id(), None);
    assert!(log.record(event()).is_none());
    log.begin("s0", false);
    assert_eq!(log.current_session_id(), None);
    log.begin("s1", true);
    log.begin("s2", true);
    assert_eq!(log.current_session_id(), Some("s1"));
    assert!(log.shutdown().is_none());
    assert_eq!(log.init(), Ok(()));
    assert_eq!(log.init(), Err("storage initialized twice".to_string()));
    match log.record(event()) {
        Some(Msg::Event(e)) => assert_eq!(e.content, "x"),
        _ => panic!("the event goes to the writer"),
    }
    assert!(matches!(log.shutdown(), Some(Msg::Shutdown)));
    assert!(log.shutdown().is_none());
    assert!(log.record(event()).is_none());
    assert!(SessionLog::new().shutdown().is_none());
}

#[test]
fn end_drains_the_queue_in_order() {
    let event = |t_s: u64| Event { kind: "answer", speaker: None, content: "x".into(), t_s, meta: None };
    let mut log = SessionLog::new();
    log.begin("s1", true);
    log.init().unwrap();
    let mut queue: Vec<Msg> = (1..4).filter_map(|t| log.record(event(t))).collect();
    queue.extend(log.shutdown());
    queue.extend(log.record(event(9)));
    queue.extend(log.shutdown());
    let mut stored = Vec::new();
    let mut ended = false;
    for msg in queue {
        assert!(!ended);
        match writer_step(Some(msg)) {
            WriterStep::Insert(e) => stored.push(e.t_s),
            WriterStep::End => ended = true,
        }
    }
    assert_eq!(stored, vec![1, 2, 3]);
    assert!(ended);
}

#[test]
fn live_session_is_not_injected() {
    assert_eq!(check_injectable("a", None), Ok(()));
    assert_eq!(check_injectable("a", Some("b")), Ok(()));
    assert_eq!(
        check_injectable("a", Some("a")),
        Err("this session is still recording — only a past one can be injected".to_string())
    );
}

#[test]
fn old_databases_are_upgraded_once() {
    let old = vec!["id".to_string(), "name".to_string(), "title".to_string()];
    assert_eq!(
        migrate(&old),
        vec![
            "ALTER TABLE sessions ADD COLUMN description TEXT".to_string(),
            "ALTER TABLE sessions ADD COLUMN context TEXT".to_string(),
        ]
    );
    let new: Vec<String> = ["context", "title", "description"].iter().map(|s| s.to_string()).collect();
    assert!(migrate(&new).is_empty());
    assert_eq!(check_journal_mode("WAL"), Ok(()));
    assert_eq!(
        check_journal_mode("delete"),
        Err("journal_mode WAL not granted (got delete)".to_string())
    );
}

#[test]
fn blank_fields_are_stored_as_nothing() {
    assert_eq!(none_if_empty("  "), None);
    assert_eq!(none_if_empty(" stack: React 18 "), Some("stack: React 18".to_string()));
    assert_eq!(build_name(true), "debug");
    assert_eq!(build_name(false), "release");
}

#[test]
fn live_session_is_marked_and_kept() {
    let one = |id: &str| SessionSummary {
        id: id.into(),
        name: "n".into(),
        title: None,
        description: None,
        context: None,
        build: "release".into(),
        started_at: String::new(),
        ended_at: None,
        event_count: 2,
        last_t_s: 30,
        live: false,
    };
    let marked = mark_live(vec![one("a"), one("b")], Some("b"));
    assert!(!marked[0].live && marked[1].live);
    assert_eq!(marked[1].event_count, 2);
    assert!(!mark_live(vec![one("a")], None)[0].live);
    assert_eq!(
        check_deletable("b", Some("b")),
        Err("this session is still recording — close the app before deleting it".to_string())
    );
    assert_eq!(check_deletable("a", Some("b")), Ok(()));
    assert_eq!(check_one_row(1, "a"), Ok(()));
    assert_eq!(check_one_row(0, "a"), Err("session a not found".to_string()));
    assert_eq!(session_not_found("x"), "session x not found");
}

#[test]
fn first_refresh_is_due_by_what_was_said() {
    let mut s = AgentSession::new(0);
    assert_eq!(s.push("me", &"a".repeat(9_999), 2 * S), Some((2, false)));
    assert_eq!(s.push("me", "b", 3 * S), Some((3, true)));
    let mut t = AgentSession::new(0);
    for _ in 0..99 {
        assert!(!t.append("interviewer", &"é".repeat(50), 0, 1));
    }
    assert!(t.append("interviewer", &"é".repeat(50), 0, 1));
}
