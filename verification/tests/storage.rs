use gimme_a_chance::storage::{
    build_name, check_deletable, check_one_row, mark_live, meta_text, migrate, none_if_empty,
    stored_t_s, Event, EventRow, MetaField, MetaValue, SessionSummary, ALL_SESSIONS,
    DELETE_EVENTS, DELETE_SESSION, END_SESSION, INSERT_EVENT, INSERT_SESSION, ONE_SESSION, SCHEMA,
    SESSION_COLUMNS, SESSION_CONTEXT, SESSION_EVENTS, SUMMARY_SELECT, UPDATE_META,
};
use rusqlite::{Connection, Row};

fn upgrade(conn: &Connection) {
    conn.execute_batch("PRAGMA foreign_keys = ON;").unwrap();
    conn.execute_batch(SCHEMA).unwrap();
    let existing: Vec<String> = {
        let mut stmt = conn.prepare(SESSION_COLUMNS).unwrap();
        let rows = stmt.query_map([], |r| r.get(0)).unwrap();
        rows.map(|r| r.unwrap()).collect()
    };
    for statement in migrate(&existing) {
        conn.execute(&statement, []).unwrap();
    }
}

fn start_session(conn: &Connection, id: &str) {
    conn.execute(
        INSERT_SESSION,
        (id, "2026-07-08 14:03", build_name(true), "2026-07-08T14:03:00+00:00"),
    )
    .unwrap();
}

fn insert_event(conn: &Connection, session_id: &str, event: &Event) {
    conn.execute(
        INSERT_EVENT,
        (
            session_id,
            event.kind,
            event.speaker,
            &event.content,
            stored_t_s(event.t_s),
            "2026-07-08T14:04:00+00:00",
            event.meta.as_ref().map(meta_text),
        ),
    )
    .unwrap();
}

fn summary(r: &Row) -> rusqlite::Result<SessionSummary> {
    Ok(SessionSummary {
        id: r.get(0)?,
        name: r.get(1)?,
        title: r.get(2)?,
        description: r.get(3)?,
        context: r.get(4)?,
        build: r.get(5)?,
        started_at: r.get(6)?,
        ended_at: r.get(7)?,
        event_count: r.get(8)?,
        last_t_s: r.get(9)?,
        live: false,
    })
}

fn list_sessions(conn: &Connection) -> Vec<SessionSummary> {
    let mut stmt = conn.prepare(&format!("{SUMMARY_SELECT}{ALL_SESSIONS}")).unwrap();
    let rows = stmt.query_map([], summary).unwrap();
    mark_live(rows.map(|r| r.unwrap()).collect(), None)
}

fn session_events(conn: &Connection, id: &str) -> Vec<EventRow> {
    let mut stmt = conn.prepare(SESSION_EVENTS).unwrap();
    let rows = stmt
        .query_map([id], |r| {
            Ok(EventRow {
                kind: r.get(0)?,
                speaker: r.get(1)?,
                content: r.get(2)?,
                t_s: r.get(3)?,
            })
        })
        .unwrap();
    rows.map(|r| r.unwrap()).collect()
}

fn delete_session(conn: &mut Connection, id: &str) -> Result<(), String> {
    check_deletable(id, None)?;
    let tx = conn.transaction().unwrap();
    tx.execute(DELETE_EVENTS, [id]).unwrap();
    let changed = tx.execute(DELETE_SESSION, [id]).unwrap();
    check_one_row(changed, id)?;
    tx.commit().unwrap();
    Ok(())
}

#[test]
fn round_trip() {
    let conn = Connection::open_in_memory().unwrap();
    upgrade(&conn);
    start_session(&conn, "s1");
    insert_event(
        &conn,
        "s1",
        &Event {
            kind: "transcript",
            speaker: Some("interviewer"),
            content: "tell me about yourself".into(),
            t_s: 42,
            meta: None,
        },
    );
    let note = MetaField { name: "trigger".into(), value: MetaValue::Text("agent".into()) };
    insert_event(
        &conn,
        "s1",
        &Event {
            kind: "answer",
            speaker: None,
            content: "an answer".into(),
            t_s: 43,
            meta: Some(vec![note]),
        },
    );
    conn.execute(END_SESSION, ("2026-07-08T15:00:00+00:00", "s1")).unwrap();

    let count: i64 = conn
        .query_row("SELECT COUNT(*) FROM events WHERE session_id = 's1'", [], |r| r.get(0))
        .unwrap();
    assert_eq!(count, 2);
    let (speaker, t_s): (String, i64) = conn
        .query_row("SELECT speaker, t_s FROM events WHERE kind = 'transcript'", [], |r| {
            Ok((r.get(0)?, r.get(1)?))
        })
        .unwrap();
    assert_eq!(speaker, "interviewer");
    assert_eq!(t_s, 42);
    let trigger: String = conn
        .query_row(
            "SELECT json_extract(meta, '$.trigger') FROM events WHERE kind = 'answer'",
            [],
            |r| r.get(0),
        )
        .unwrap();
    assert_eq!(trigger, "agent");
    let ended: Option<String> = conn
        .query_row("SELECT ended_at FROM sessions WHERE id = 's1'", [], |r| r.get(0))
        .unwrap();
    assert!(ended.is_some());
}

#[test]
fn management_round_trip() {
    let mut conn = Connection::open_in_memory().unwrap();
    // The tables as the first release made them.
    conn.execute_batch(
        "CREATE TABLE sessions (
             id TEXT PRIMARY KEY, name TEXT NOT NULL, build TEXT NOT NULL,
             started_at TEXT NOT NULL, ended_at TEXT
         );
         CREATE TABLE events (
             id INTEGER PRIMARY KEY, session_id TEXT NOT NULL REFERENCES sessions(id),
             kind TEXT NOT NULL, speaker TEXT, content TEXT NOT NULL,
             t_s INTEGER NOT NULL, created_at TEXT NOT NULL, meta TEXT
         );",
    )
    .unwrap();
    upgrade(&conn);
    start_session(&conn, "s1");
    insert_event(
        &conn,
        "s1",
        &Event {
            kind: "transcript",
            speaker: Some("interviewer"),
            content: "walk me through your resume".into(),
            t_s: 12,
            meta: None,
        },
    );
    insert_event(
        &conn,
        "s1",
        &Event {
            kind: "answer",
            speaker: None,
            content: "an answer".into(),
            t_s: 30,
            meta: None,
        },
    );

    let changed = conn
        .execute(
            UPDATE_META,
            (
                none_if_empty("Privalia r1"),
                none_if_empty("  "),
                none_if_empty("stack: React 18"),
                "s1",
            ),
        )
        .unwrap();
    assert_eq!(check_one_row(changed, "s1"), Ok(()));
    let s = conn.query_row(&format!("{SUMMARY_SELECT}{ONE_SESSION}"), ["s1"], summary).unwrap();
    assert_eq!(s.title.as_deref(), Some("Privalia r1"));
    assert_eq!(s.description, None);
    assert_eq!(s.event_count, 2);
    assert_eq!(s.last_t_s, 30);
    let context: Option<String> =
        conn.query_row(SESSION_CONTEXT, ["s1"], |r| r.get(0)).unwrap();
    assert_eq!(context.as_deref(), Some("stack: React 18"));

    let events = session_events(&conn, "s1");
    assert_eq!(events.len(), 2);
    assert_eq!(events[0].kind, "transcript");
    assert_eq!(events[0].speaker.as_deref(), Some("interviewer"));

    assert_eq!(list_sessions(&conn).len(), 1);
    assert!(delete_session(&mut conn, "missing").is_err());
    delete_session(&mut conn, "s1").unwrap();
    assert!(list_sessions(&conn).is_empty());
    let orphans: i64 = conn.query_row("SELECT COUNT(*) FROM events", [], |r| r.get(0)).unwrap();
    assert_eq!(orphans, 0);
}
