use gimme_a_chance::export::{session_markdown, stamp};
use gimme_a_chance::storage::{EventRow, SessionSummary};

fn event(kind: &str, speaker: Option<&str>, content: &str, t_s: i64) -> EventRow {
    EventRow {
        kind: kind.into(),
        speaker: speaker.map(Into::into),
        content: content.into(),
        t_s,
    }
}

fn untitled() -> SessionSummary {
    SessionSummary {
        id: "s2".into(),
        name: "2026-07-01 09:00".into(),
        title: None,
        description: None,
        context: None,
        build: "debug".into(),
        started_at: "2026-07-01T07:00:00+00:00".into(),
        ended_at: None,
        event_count: 0,
        last_t_s: 0,
        live: false,
    }
}

#[test]
fn renders_meta_fields_and_timeline() {
    let session = SessionSummary {
        id: "s1".into(),
        name: "2026-07-08 14:03".into(),
        title: Some("Privalia round 1".into()),
        description: Some("Code review with Fernando".into()),
        context: Some("They use React 18".into()),
        build: "release".into(),
        started_at: "2026-07-08T12:03:00+00:00".into(),
        ended_at: None,
        event_count: 3,
        last_t_s: 3725,
        live: false,
    };
    let events = vec![
        event(
            "transcript",
            Some("interviewer"),
            "tell me about yourself",
            42,
        ),
        event("screen", None, "A LeetCode problem", 130),
        event("answer", None, "line one\nline two", 3725),
    ];

    let md = session_markdown(&session, &events);
    assert!(md.starts_with("# Privalia round 1\n"));
    assert!(md.contains("- **Duration:** 1:02:05"));
    assert!(md.contains("## Description\n\nCode review with Fernando"));
    assert!(md.contains("## Context\n\nThey use React 18"));
    assert!(md.contains("**[00:42] Interviewer:** tell me about yourself"));
    assert!(md.contains("**[02:10] Screen:** A LeetCode problem"));
    // Multi-line content lands as a blockquote under its header line.
    assert!(md.contains("**[1:02:05] Answer:**\n\n> line one\n> line two"));
}

#[test]
fn untitled_session_falls_back_to_its_name() {
    let session = untitled();
    let md = session_markdown(&session, &[]);
    assert!(md.starts_with("# 2026-07-01 09:00\n"));
    assert!(!md.contains("## Description"));
    assert!(!md.contains("## Context"));
}

#[test]
fn whole_document_is_exact() {
    let md = session_markdown(&untitled(), &[event("transcript", Some("me"), "hi", 5)]);
    assert_eq!(
        md,
        "# 2026-07-01 09:00\n\n- **Recorded:** 2026-07-01 09:00\n- **Duration:** 00:00\n\
         - **Build:** debug\n- **Events:** 0\n\n## Timeline\n\n**[00:05] You:** hi\n\n"
    );
}

#[test]
fn stamps_cross_the_hour() {
    assert_eq!(stamp(0), "00:00");
    assert_eq!(stamp(-7), "00:00");
    assert_eq!(stamp(3599), "59:59");
    assert_eq!(stamp(3600), "1:00:00");
    assert_eq!(stamp(36_000 + 61), "10:01:01");
}

#[test]
fn labels_follow_the_kind() {
    let label = |kind: &str, who: Option<&str>| {
        gimme_a_chance::export::label(&event(kind, who, "", 0)).to_string()
    };
    assert_eq!(label("transcript", Some("me")), "You");
    assert_eq!(label("transcript", None), "Interviewer");
    assert_eq!(label("clipboard_stealth", None), "Clipboard");
    assert_eq!(label("context", None), "Loaded context");
    assert_eq!(label("custom", None), "custom");
}

#[test]
fn longer_timeline_extends_the_shorter() {
    let first = vec![event("question", None, "a\r\nb\n", 1)];
    let both = vec![event("question", None, "a\r\nb\n", 1), event("answer", None, "c", 2)];
    let short = session_markdown(&untitled(), &first);
    let long = session_markdown(&untitled(), &both);
    assert!(long.starts_with(&short));
    assert!(short.ends_with("**[00:01] Question:**\n\n> a\n> b\n\n"));
}
