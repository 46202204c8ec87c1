//! The session log: what is recorded of an interview, and the rules by which
//! it is stored, listed, edited and deleted. The database itself is outside.

use vstd::prelude::*;
use crate::json;
use crate::text;

verus! {

/// The tables. `title`, `description` and `context` are what the user writes
/// about a session; the rest is recorded.
pub const SCHEMA: &'static str = "
CREATE TABLE IF NOT EXISTS sessions (
    id          TEXT PRIMARY KEY,
    name        TEXT NOT NULL,
    build       TEXT NOT NULL,
    started_at  TEXT NOT NULL,
    ended_at    TEXT,
    title       TEXT,
    description TEXT,
    context     TEXT
);
CREATE TABLE IF NOT EXISTS events (
    id         INTEGER PRIMARY KEY,
    session_id TEXT NOT NULL REFERENCES sessions(id),
    kind       TEXT NOT NULL,
    speaker    TEXT,
    content    TEXT NOT NULL,
    t_s        INTEGER NOT NULL,
    created_at TEXT NOT NULL,
    meta       TEXT
);
CREATE INDEX IF NOT EXISTS idx_events_session_kind ON events (session_id, kind);
";

/// The columns of a session's summary, with what is counted over its events.
pub const SUMMARY_SELECT: &'static str = "
    SELECT s.id, s.name, s.title, s.description, s.context, s.build,
           s.started_at, s.ended_at,
           COUNT(e.id), COALESCE(MAX(e.t_s), 0)
    FROM sessions s LEFT JOIN events e ON e.session_id = s.id";

/// What follows the columns for all sessions, newest first.
pub const ALL_SESSIONS: &'static str = " GROUP BY s.id ORDER BY s.started_at DESC";

/// What follows the columns for one session.
pub const ONE_SESSION: &'static str = " WHERE s.id = ?1 GROUP BY s.id";

/// The columns that the table of sessions has.
pub const SESSION_COLUMNS: &'static str = "SELECT name FROM pragma_table_info('sessions')";

/// Opens a session: its id, name, build and start.
pub const INSERT_SESSION: &'static str =
    "INSERT INTO sessions (id, name, build, started_at) VALUES (?1, ?2, ?3, ?4)";

/// Closes a session: its end and id.
pub const END_SESSION: &'static str = "UPDATE sessions SET ended_at = ?1 WHERE id = ?2";

/// Records an event: its session, kind, speaker, content, clock, time and notes.
pub const INSERT_EVENT: &'static str =
    "INSERT INTO events (session_id, kind, speaker, content, t_s, created_at, meta) \
     VALUES (?1, ?2, ?3, ?4, ?5, ?6, ?7)";

/// The events of a session, in the order they were recorded.
pub const SESSION_EVENTS: &'static str =
    "SELECT kind, speaker, content, t_s FROM events WHERE session_id = ?1 ORDER BY id";

/// Saves what the user wrote about a session: title, description, context, id.
pub const UPDATE_META: &'static str =
    "UPDATE sessions SET title = ?1, description = ?2, context = ?3 WHERE id = ?4";

/// What the user wrote as a session's context.
pub const SESSION_CONTEXT: &'static str = "SELECT context FROM sessions WHERE id = ?1";

/// Deletes the events of a session. They go first: each refers to it.
pub const DELETE_EVENTS: &'static str = "DELETE FROM events WHERE session_id = ?1";

/// Deletes a session.
pub const DELETE_SESSION: &'static str = "DELETE FROM sessions WHERE id = ?1";

/// A value in an event's notes.
pub enum MetaValue {
    Text(String),
    Count(u64),
}

/// One of an event's notes.
pub struct MetaField {
    pub name: String,
    pub value: MetaValue,
}

/// An event to record.
pub struct Event {
    /// Where it comes from: `transcript`, `screen`, `clipboard`,
    /// `clipboard_stealth`, `question` or `answer`.
    pub kind: &'static str,
    /// Who spoke, for a line of the transcript.
    pub speaker: Option<&'static str>,
    pub content: String,
    /// Seconds since the session started.
    pub t_s: u64,
    /// What else is known of it.
    pub meta: Option<Vec<MetaField>>,
}

/// `MetaValue` over plain text.
pub enum MetaValueView {
    Text(Seq<char>),
    Count(nat),
}

/// `MetaField` over plain text.
pub struct MetaFieldView {
    pub name: Seq<char>,
    pub value: MetaValueView,
}

/// `Event` over plain text.
pub struct EventView {
    pub kind: Seq<char>,
    pub speaker: Option<Seq<char>>,
    pub content: Seq<char>,
    pub t_s: u64,
    pub meta: Option<Seq<MetaFieldView>>,
}

impl View for MetaField {
    type V = MetaFieldView;

    open spec fn view(&self) -> MetaFieldView {
        MetaFieldView {
            name: self.name@,
            value: match self.value {
                MetaValue::Text(s) => MetaValueView::Text(s@),
                MetaValue::Count(n) => MetaValueView::Count(n as nat),
            },
        }
    }
}

impl View for Event {
    type V = EventView;

    open spec fn view(&self) -> EventView {
        EventView {
            kind: self.kind@,
            speaker: match self.speaker {
                Some(s) => Some(s@),
                None => None,
            },
            content: self.content@,
            t_s: self.t_s,
            meta: match self.meta {
                Some(fields) => Some(fields@.map_values(|f: MetaField| f@)),
                None => None,
            },
        }
    }
}

/// One note as JSON.
pub open spec fn meta_field_json(f: MetaFieldView) -> Seq<char> {
    json::json_literal(f.name) + ":"@ + (match f.value {
        MetaValueView::Text(s) => json::json_literal(s),
        MetaValueView::Count(n) => text::decimal(n),
    })
}

/// The notes as a JSON object.
pub open spec fn meta_json(fields: Seq<MetaFieldView>) -> Seq<char> {
    "{"@ + text::joined(fields.map_values(|f: MetaFieldView| meta_field_json(f)), ","@) + "}"@
}

/// The notes as the database keeps them.
pub fn meta_text(fields: &Vec<MetaField>) -> (r: String)
    ensures
        r@ == meta_json(fields@.map_values(|f: MetaField| f@)),
{
    let ghost all = fields@.map_values(|f: MetaField| f@);
    let ghost wanted = all.map_values(|f: MetaFieldView| meta_field_json(f));
    let mut parts: Vec<String> = Vec::new();
    let mut k: usize = 0;
    assert(text::views(parts@) =~= wanted.take(0));
    while k < fields.len()
        invariant
            k <= fields@.len(),
            all == fields@.map_values(|f: MetaField| f@),
            wanted == all.map_values(|f: MetaFieldView| meta_field_json(f)),
            text::views(parts@) == wanted.take(k as int),
        decreases fields@.len() - k,
    {
        let ghost so_far = parts@;
        let mut part = json::to_json_literal(fields[k].name.as_str());
        part.append(":");
        match &fields[k].value {
            MetaValue::Text(s) => {
                let literal = json::to_json_literal(s.as_str());
                part.append(literal.as_str());
            },
            MetaValue::Count(n) => text::push_decimal(&mut part, *n),
        }
        assert(part@ =~= wanted[k as int]);
        parts.push(part);
        assert(text::views(parts@) =~= text::views(so_far).push(part@));
        k += 1;
        assert(text::views(parts@) =~= wanted.take(k as int));
    }
    assert(wanted.take(k as int) =~= wanted);
    let mut out = "{".to_owned();
    let body = text::join(&parts, ",");
    out.append(body.as_str());
    out.append("}");
    out
}

/// A session clock as the database keeps it.
pub fn stored_t_s(t_s: u64) -> (r: i64)
    ensures
        r == (if t_s <= i64::MAX {
            t_s as int
        } else {
            i64::MAX as int
        }),
{
    if t_s <= i64::MAX as u64 {
        t_s as i64
    } else {
        i64::MAX
    }
}

// ── Writing ────────────────────────────────────────────────────────────────

/// What the writer is told next.
pub enum Msg {
    Event(Event),
    Shutdown,
}

/// `Msg` over plain text.
pub enum MsgView {
    Event(EventView),
    Shutdown,
}

impl View for Msg {
    type V = MsgView;

    open spec fn view(&self) -> MsgView {
        match self {
            Msg::Event(event) => MsgView::Event(event@),
            Msg::Shutdown => MsgView::Shutdown,
        }
    }
}

/// What the writer does.
pub enum WriterStep {
    /// Insert this event and wait for the next. A failed insert is skipped:
    /// one bad event must not stop the log.
    Insert(Event),
    /// Stamp the end of the session and stop.
    End,
}

/// The event that the writer inserts for a message. It inserts none at the end.
pub open spec fn inserted(msg: MsgView) -> Option<EventView> {
    match msg {
        MsgView::Event(event) => Some(event),
        MsgView::Shutdown => None,
    }
}

/// The writer's step for a message, or for the end of all messages.
pub fn writer_step(msg: Option<Msg>) -> (r: WriterStep)
    ensures
        match msg {
            Some(Msg::Event(event)) => r == WriterStep::Insert(event),
            _ => r is End,
        },
        msg matches Some(m) ==> inserted(m@) == (match r {
            WriterStep::Insert(event) => Some(event@),
            WriterStep::End => None,
        }),
{
    match msg {
        Some(Msg::Event(event)) => WriterStep::Insert(event),
        _ => WriterStep::End,
    }
}

/// What the writer makes of these messages: the events that it inserts, in
/// order, and whether it came to the end.
pub open spec fn written(msgs: Seq<MsgView>) -> (Seq<EventView>, bool)
    decreases msgs.len(),
{
    if msgs.len() == 0 {
        (seq![], false)
    } else {
        match inserted(msgs[0]) {
            Some(event) => {
                let (later, ended) = written(msgs.drop_first());
                (seq![event] + later, ended)
            },
            None => (seq![], true),
        }
    }
}

/// The life of the log in one run of the program: one session, one writer.
pub struct SessionLog {
    session_id: Option<String>,
    started: bool,
    stopped: bool,
}

/// `SessionLog` over plain text.
#[verifier::ext_equal]
pub struct LogView {
    /// This run's session, once it has one.
    pub session_id: Option<Seq<char>>,
    /// Whether the writer was started.
    pub started: bool,
    /// Whether it was told to stop.
    pub stopped: bool,
}

impl View for SessionLog {
    type V = LogView;

    closed spec fn view(&self) -> LogView {
        LogView {
            session_id: match self.session_id {
                Some(s) => Some(s@),
                None => None,
            },
            started: self.started,
            stopped: self.stopped,
        }
    }
}

/// Whether the writer takes messages: it was started and not stopped.
pub open spec fn takes_messages(v: LogView) -> bool {
    v.started && !v.stopped
}

/// The log after an event was recorded or the end was asked for.
pub open spec fn log_after(v: LogView, asked: MsgView) -> LogView {
    match asked {
        MsgView::Event(_) => v,
        MsgView::Shutdown => LogView { stopped: v.stopped || v.started, ..v },
    }
}

/// The messages that reach the writer when these are asked for in turn.
pub open spec fn queued(v: LogView, asked: Seq<MsgView>) -> Seq<MsgView>
    decreases asked.len(),
{
    if asked.len() == 0 {
        seq![]
    } else {
        let later = queued(log_after(v, asked[0]), asked.drop_first());
        if takes_messages(v) {
            seq![asked[0]] + later
        } else {
            later
        }
    }
}

impl SessionLog {
    pub fn new() -> (r: Self)
        ensures
            r@ == (LogView { session_id: None, started: false, stopped: false }),
    {
        SessionLog { session_id: None, started: false, stopped: false }
    }

    /// The row of this run's session was inserted, or could not be. The run has
    /// a session once its row is there, and the first one stays.
    pub fn begin(&mut self, id: &str, row_inserted: bool)
        ensures
            final(self)@ == (LogView {
                session_id: if row_inserted && old(self)@.session_id is None {
                    Some(id@)
                } else {
                    old(self)@.session_id
                },
                ..old(self)@
            }),
    {
        if row_inserted && self.session_id.is_none() {
            self.session_id = Some(id.to_owned());
        }
    }

    /// The writer was started. A second one is an error.
    pub fn init(&mut self) -> (r: Result<(), String>)
        ensures
            r is Ok <==> !old(self)@.started,
            r matches Err(e) ==> e@ == "storage initialized twice"@,
            final(self)@ == (LogView { started: true, ..old(self)@ }),
    {
        if self.started {
            return Err("storage initialized twice".to_owned());
        }
        self.started = true;
        Ok(())
    }

    /// This run's session, once it has one.
    pub fn current_session_id(&self) -> (r: Option<&str>)
        ensures
            r is Some <==> self@.session_id is Some,
            r is Some ==> self@.session_id == Some(r->0@),
    {
        match &self.session_id {
            Some(s) => Some(s.as_str()),
            None => None,
        }
    }

    /// What the writer is told of an event: nothing where it was not started, or
    /// was stopped.
    pub fn record(&self, event: Event) -> (r: Option<Msg>)
        ensures
            r == (if takes_messages(self@) {
                Some(Msg::Event(event))
            } else {
                None
            }),
    {
        if self.started && !self.stopped {
            Some(Msg::Event(event))
        } else {
            None
        }
    }

    /// What the writer is told at the end. It is told once, and then waited for.
    pub fn shutdown(&mut self) -> (r: Option<Msg>)
        ensures
            r == (if takes_messages(old(self)@) {
                Some(Msg::Shutdown)
            } else {
                None
            }),
            final(self)@ == log_after(old(self)@, MsgView::Shutdown),
    {
        if self.started && !self.stopped {
            self.stopped = true;
            Some(Msg::Shutdown)
        } else {
            None
        }
    }
}

/// The messages that ask for events to be recorded.
pub open spec fn records(events: Seq<EventView>) -> Seq<MsgView> {
    events.map_values(|event: EventView| MsgView::Event(event))
}

/// The end drains what is still queued: the writer inserts exactly the events
/// recorded before it, in order, and ends the session. Whatever is asked for
/// afterwards, another end included, reaches it no more.
pub proof fn shutdown_drains_the_queue(
    v: LogView,
    events: Seq<EventView>,
    later: Seq<MsgView>,
)
    requires
        takes_messages(v),
    ensures
        written(queued(v, records(events).push(MsgView::Shutdown) + later)) == (events, true),
        log_after(log_after(v, MsgView::Shutdown), MsgView::Shutdown) == log_after(
            v,
            MsgView::Shutdown,
        ),
    decreases events.len(),
{
    let asked = records(events).push(MsgView::Shutdown) + later;
    if events.len() == 0 {
        assert(asked[0] == MsgView::Shutdown);
        assert(queued(v, asked)[0] == MsgView::Shutdown);
        assert(written(queued(v, asked)).0 =~= events);
    } else {
        let rest = events.drop_first();
        assert(asked.drop_first() =~= records(rest).push(MsgView::Shutdown) + later);
        shutdown_drains_the_queue(v, rest, later);
        let msgs = queued(v, asked);
        assert(asked[0] == MsgView::Event(events[0]));
        assert(msgs.drop_first() =~= queued(v, asked.drop_first()));
        assert(seq![events[0]] + rest =~= events);
    }
}

/// Without a writer nothing is recorded, and the end changes nothing.
pub proof fn nothing_is_recorded_without_a_writer(v: LogView, asked: Seq<MsgView>)
    requires
        !v.started,
    ensures
        queued(v, asked) == Seq::<MsgView>::empty(),
        log_after(v, MsgView::Shutdown) == v,
    decreases asked.len(),
{
    if asked.len() > 0 {
        assert(log_after(v, asked[0]) == v);
        nothing_is_recorded_without_a_writer(v, asked.drop_first());
    }
}

/// Which build recorded a session.
pub fn build_name(debug: bool) -> (r: &'static str)
    ensures
        r@ == (if debug {
            "debug"@
        } else {
            "release"@
        }),
{
    if debug {
        "debug"
    } else {
        "release"
    }
}

/// Whether the database keeps its journal the way the log needs it.
pub open spec fn is_wal(mode: Seq<char>) -> bool {
    mode.len() == 3 && (mode[0] == 'w' || mode[0] == 'W') && (mode[1] == 'a' || mode[1] == 'A') && (
    mode[2] == 'l' || mode[2] == 'L')
}

/// Accepts the journal mode that the database granted, in any case, or says
/// what it granted instead.
pub fn check_journal_mode(mode: &str) -> (r: Result<(), String>)
    ensures
        r is Ok <==> is_wal(mode@),
        r matches Err(e) ==> e@ == "journal_mode WAL not granted (got "@ + mode@ + ")"@,
{
    let cs = text::chars_of(mode);
    if cs.len() == 3 && (cs[0] == 'w' || cs[0] == 'W') && (cs[1] == 'a' || cs[1] == 'A') && (cs[2]
        == 'l' || cs[2] == 'L') {
        return Ok(());
    }
    let mut message = "journal_mode WAL not granted (got ".to_owned();
    message.append(mode);
    message.append(")");
    Err(message)
}

/// The columns that were added to the first release's `sessions` table.
pub open spec fn added_columns() -> Seq<Seq<char>> {
    seq!["title"@, "description"@, "context"@]
}

/// The statement that adds a column.
pub open spec fn add_column(name: Seq<char>) -> Seq<char> {
    "ALTER TABLE sessions ADD COLUMN "@ + name + " TEXT"@
}

/// Those of some columns that a table lacks.
pub open spec fn lacking(existing: Seq<Seq<char>>, columns: Seq<Seq<char>>) -> Seq<Seq<char>>
    decreases columns.len(),
{
    if columns.len() == 0 {
        seq![]
    } else {
        let before = lacking(existing, columns.drop_last());
        if existing.contains(columns.last()) {
            before
        } else {
            before.push(columns.last())
        }
    }
}

/// The statements that bring a table with these columns up to date: one for
/// each added column that it lacks.
pub open spec fn upgrades(existing: Seq<Seq<char>>) -> Seq<Seq<char>> {
    lacking(existing, added_columns()).map_values(|name: Seq<char>| add_column(name))
}

/// The columns of a table that was brought up to date.
pub open spec fn upgraded(existing: Seq<Seq<char>>) -> Seq<Seq<char>> {
    existing + lacking(existing, added_columns())
}

fn has_column(existing: &Vec<String>, name: &str) -> (r: bool)
    ensures
        r == text::views(existing@).contains(name@),
{
    let mut k: usize = 0;
    while k < existing.len()
        invariant
            k <= existing@.len(),
            forall|i: int| 0 <= i < k ==> (#[trigger] text::views(existing@)[i]) != name@,
        decreases existing@.len() - k,
    {
        if text::same(existing[k].as_str(), name) {
            assert(text::views(existing@)[k as int] == name@);
            return true;
        }
        k += 1;
    }
    false
}

fn push_upgrade(out: &mut Vec<String>, existing: &Vec<String>, name: &str)
    ensures
        text::views(final(out)@) == (if text::views(existing@).contains(name@) {
            text::views(old(out)@)
        } else {
            text::views(old(out)@).push(add_column(name@))
        }),
{
    if !has_column(existing, name) {
        let mut statement = "ALTER TABLE sessions ADD COLUMN ".to_owned();
        statement.append(name);
        statement.append(" TEXT");
        out.push(statement);
        assert(text::views(out@) =~= text::views(old(out)@).push(add_column(name@)));
    }
}

/// What to run on a database whose `sessions` table has these columns.
pub fn migrate(existing: &Vec<String>) -> (r: Vec<String>)
    ensures
        text::views(r@) == upgrades(text::views(existing@)),
{
    let mut out: Vec<String> = Vec::new();
    let ghost have = text::views(existing@);
    push_upgrade(&mut out, existing, "title");
    push_upgrade(&mut out, existing, "description");
    push_upgrade(&mut out, existing, "context");
    proof {
        let cols = added_columns();
        assert(cols.drop_last() =~= seq!["title"@, "description"@]);
        assert(cols.drop_last().drop_last() =~= seq!["title"@]);
        assert(cols.drop_last().drop_last().drop_last() =~= seq![]);
        reveal_with_fuel(lacking, 4);
        assert(text::views(out@) =~= upgrades(have));
    }
    out
}

proof fn nothing_is_lacking(existing: Seq<Seq<char>>, columns: Seq<Seq<char>>)
    requires
        forall|k: int| 0 <= k < columns.len() ==> existing.contains(#[trigger] columns[k]),
    ensures
        lacking(existing, columns) == Seq::<Seq<char>>::empty(),
    decreases columns.len(),
{
    if columns.len() > 0 {
        assert forall|k: int| 0 <= k < columns.drop_last().len() implies existing.contains(
            #[trigger] columns.drop_last()[k],
        ) by {
            assert(columns.drop_last()[k] == columns[k]);
        }
        nothing_is_lacking(existing, columns.drop_last());
        assert(existing.contains(columns[columns.len() - 1]));
    }
}

proof fn lacking_are_listed(existing: Seq<Seq<char>>, columns: Seq<Seq<char>>, k: int)
    requires
        0 <= k < columns.len(),
        !existing.contains(columns[k]),
    ensures
        lacking(existing, columns).contains(columns[k]),
    decreases columns.len(),
{
    let all = lacking(existing, columns);
    if k == columns.len() - 1 {
        assert(all.last() == columns[k]);
    } else {
        let before = lacking(existing, columns.drop_last());
        lacking_are_listed(existing, columns.drop_last(), k);
        let at = choose|i: int| 0 <= i < before.len() && before[i] == columns[k];
        assert(all[at] == columns[k]);
    }
}

/// A table that was brought up to date is left alone from then on, so upgrading
/// twice does no more than upgrading once. It keeps every column that it had.
pub proof fn upgrading_is_idempotent(existing: Seq<Seq<char>>)
    ensures
        upgrades(upgraded(existing)) == Seq::<Seq<char>>::empty(),
        existing.is_prefix_of(upgraded(existing)),
{
    let cols = added_columns();
    let after = upgraded(existing);
    assert forall|k: int| 0 <= k < cols.len() implies after.contains(#[trigger] cols[k]) by {
        if existing.contains(cols[k]) {
            let at = choose|i: int| 0 <= i < existing.len() && existing[i] == cols[k];
            assert(after[at] == cols[k]);
        } else {
            lacking_are_listed(existing, cols, k);
            let missing = lacking(existing, cols);
            let at = choose|i: int| 0 <= i < missing.len() && missing[i] == cols[k];
            assert(after[existing.len() + at] == cols[k]);
        }
    }
    nothing_is_lacking(after, cols);
    assert(upgrades(after) =~= Seq::<Seq<char>>::empty());
    assert(existing.is_prefix_of(after));
}

// ── The manager's side ─────────────────────────────────────────────────────

/// A session in the manager's list.
pub struct SessionSummary {
    pub id: String,
    pub name: String,
    pub title: Option<String>,
    pub description: Option<String>,
    pub context: Option<String>,
    pub build: String,
    pub started_at: String,
    pub ended_at: Option<String>,
    pub event_count: i64,
    /// The clock of the session's last event: how long it went on.
    pub last_t_s: i64,
    /// Whether it is being recorded right now.
    pub live: bool,
}

/// An event in a session's timeline.
pub struct EventRow {
    pub kind: String,
    pub speaker: Option<String>,
    pub content: String,
    pub t_s: i64,
}

/// Whether the session of that id is the one being recorded.
pub open spec fn is_current(current: Option<Seq<char>>, id: Seq<char>) -> bool {
    current == Some(id)
}

fn is_live(current: Option<&str>, id: &str) -> (r: bool)
    ensures
        r == is_current(
            match current {
                Some(c) => Some(c@),
                None => None,
            },
            id@,
        ),
{
    match current {
        Some(c) => text::same(c, id),
        None => false,
    }
}

/// Marks the sessions as live or not, and changes nothing else about them.
pub fn mark_live(sessions: Vec<SessionSummary>, current: Option<&str>) -> (r: Vec<SessionSummary>)
    ensures
        r@.len() == sessions@.len(),
        forall|i: int|
            0 <= i < r@.len() ==> (#[trigger] r@[i]) == (SessionSummary {
                live: is_current(
                    match current {
                        Some(c) => Some(c@),
                        None => None,
                    },
                    sessions@[i].id@,
                ),
                ..sessions@[i]
            }),
{
    let mut rest = sessions;
    let mut out: Vec<SessionSummary> = Vec::new();
    let ghost now = match current {
        Some(c) => Some(c@),
        None => None,
    };
    while rest.len() > 0
        invariant
            out@.len() + rest@.len() == sessions@.len(),
            rest@ == sessions@.skip(out@.len() as int),
            now == (match current {
                Some(c) => Some(c@),
                None => None,
            }),
            forall|i: int|
                0 <= i < out@.len() ==> (#[trigger] out@[i]) == (SessionSummary {
                    live: is_current(now, sessions@[i].id@),
                    ..sessions@[i]
                }),
        decreases rest@.len(),
    {
        let ghost done = out@.len();
        assert(rest@[0] == sessions@[done as int]);
        let mut s = rest.remove(0);
        s.live = is_live(current, s.id.as_str());
        out.push(s);
        assert(rest@ =~= sessions@.skip(out@.len() as int));
    }
    out
}

/// No two sessions of a list are live, and one is where the current one is
/// listed.
pub proof fn one_session_is_live(ids: Seq<Seq<char>>, current: Option<Seq<char>>)
    requires
        ids.no_duplicates(),
    ensures
        forall|i: int, j: int|
            0 <= i < ids.len() && 0 <= j < ids.len() && #[trigger] is_current(current, ids[i])
                && #[trigger] is_current(current, ids[j]) ==> i == j,
        current matches Some(id) && ids.contains(id) ==> exists|i: int|
            0 <= i < ids.len() && #[trigger] is_current(current, ids[i]),
{
    if let Some(id) = current {
        if ids.contains(id) {
            let i = choose|i: int| 0 <= i < ids.len() && ids[i] == id;
            assert(is_current(current, ids[i]));
        }
    }
}

/// What the user wrote in a field: nothing where it is blank, so that a field
/// that was cleared reads like one that was never filled in.
pub open spec fn field_of(s: Seq<char>) -> Option<Seq<char>> {
    if text::trimmed(s).len() == 0 {
        None
    } else {
        Some(text::trimmed(s))
    }
}

pub fn none_if_empty(s: &str) -> (r: Option<String>)
    ensures
        r is Some <==> field_of(s@) is Some,
        r is Some ==> field_of(s@) == Some(r->0@),
{
    let t = text::trim(s);
    if t.unicode_len() == 0 {
        None
    } else {
        Some(t.to_owned())
    }
}

/// The error for a session that is not there.
pub open spec fn missing_session(id: Seq<char>) -> Seq<char> {
    "session "@ + id + " not found"@
}

pub fn session_not_found(id: &str) -> (r: String)
    ensures
        r@ == missing_session(id@),
{
    let mut message = "session ".to_owned();
    message.append(id);
    message.append(" not found");
    message
}

/// A change to one session must have changed one row.
pub fn check_one_row(changed: usize, id: &str) -> (r: Result<(), String>)
    ensures
        r is Ok <==> changed == 1,
        r matches Err(e) ==> e@ == missing_session(id@),
{
    if changed == 1 {
        Ok(())
    } else {
        Err(session_not_found(id))
    }
}

/// Whether a session may be deleted: not while it is being recorded.
pub fn check_deletable(id: &str, current: Option<&str>) -> (r: Result<(), String>)
    ensures
        r is Err <==> is_current(
            match current {
                Some(c) => Some(c@),
                None => None,
            },
            id@,
        ),
        r matches Err(e) ==> e@
            == "this session is still recording — close the app before deleting it"@,
{
    if is_live(current, id) {
        Err("this session is still recording — close the app before deleting it".to_owned())
    } else {
        Ok(())
    }
}

/// Whether what the user wrote about a session may be taken into the one being
/// recorded: only where it is another one.
pub fn check_injectable(id: &str, current: Option<&str>) -> (r: Result<(), String>)
    ensures
        r is Err <==> is_current(
            match current {
                Some(c) => Some(c@),
                None => None,
            },
            id@,
        ),
        r matches Err(e) ==> e@
            == "this session is still recording — only a past one can be injected"@,
{
    if is_live(current, id) {
        Err("this session is still recording — only a past one can be injected".to_owned())
    } else {
        Ok(())
    }
}

/// Every note of an event is kept, under its name and with its value.
pub proof fn every_note_is_kept(fields: Seq<MetaFieldView>, i: int)
    requires
        0 <= i < fields.len(),
    ensures
        text::occurs(
            meta_json(fields),
            json::json_literal(fields[i].name) + ":"@ + (match fields[i].value {
                MetaValueView::Text(s) => json::json_literal(s),
                MetaValueView::Count(n) => text::decimal(n),
            }),
        ),
{
    let notes = fields.map_values(|f: MetaFieldView| meta_field_json(f));
    let inner = text::joined(notes, ","@);
    text::parts_occur("{"@, inner, "}"@);
    text::joined_texts_occur(notes, ","@, i);
    text::occurrences_carry_over(meta_json(fields), inner, notes[i]);
}

/// Each event that is recorded while the writer runs is inserted, as it is and
/// in order, also where the end has not come yet.
pub proof fn every_event_is_inserted(v: LogView, events: Seq<EventView>)
    requires
        takes_messages(v),
    ensures
        written(queued(v, records(events))) == (events, false),
    decreases events.len(),
{
    let asked = records(events);
    if events.len() == 0 {
        assert(written(queued(v, asked)).0 =~= events);
    } else {
        let rest = events.drop_first();
        assert(asked.drop_first() =~= records(rest));
        every_event_is_inserted(v, rest);
        let msgs = queued(v, asked);
        assert(asked[0] == MsgView::Event(events[0]));
        assert(msgs.drop_first() =~= queued(v, asked.drop_first()));
        assert(seq![events[0]] + rest =~= events);
    }
}

/// An upgrade adds what lacks and nothing else: each column that the table does
/// not have, by its own statement.
pub proof fn upgrades_add_what_lacks(existing: Seq<Seq<char>>)
    ensures
        upgrades(Seq::<Seq<char>>::empty()) == seq![
            "ALTER TABLE sessions ADD COLUMN "@ + "title"@ + " TEXT"@,
            "ALTER TABLE sessions ADD COLUMN "@ + "description"@ + " TEXT"@,
            "ALTER TABLE sessions ADD COLUMN "@ + "context"@ + " TEXT"@,
        ],
        existing.contains("title"@) && existing.contains("description"@) && existing.contains(
            "context"@,
        ) ==> upgrades(existing) == Seq::<Seq<char>>::empty(),
        existing.contains("title"@) && !existing.contains("description"@) && existing.contains(
            "context"@,
        ) ==> upgrades(existing) == seq![
            "ALTER TABLE sessions ADD COLUMN "@ + "description"@ + " TEXT"@,
        ],
{
    let cols = added_columns();
    assert(cols.drop_last() =~= seq!["title"@, "description"@]);
    assert(cols.drop_last().drop_last() =~= seq!["title"@]);
    assert(cols.drop_last().drop_last().drop_last() =~= seq![]);
    reveal_with_fuel(lacking, 4);
    let none = Seq::<Seq<char>>::empty();
    assert(lacking(none, cols) =~= cols);
    assert(upgrades(none) =~= seq![
        "ALTER TABLE sessions ADD COLUMN "@ + "title"@ + " TEXT"@,
        "ALTER TABLE sessions ADD COLUMN "@ + "description"@ + " TEXT"@,
        "ALTER TABLE sessions ADD COLUMN "@ + "context"@ + " TEXT"@,
    ]);
    if existing.contains("title"@) && existing.contains("context"@) {
        if existing.contains("description"@) {
            assert(upgrades(existing) =~= none);
        } else {
            assert(upgrades(existing) =~= seq![
                "ALTER TABLE sessions ADD COLUMN "@ + "description"@ + " TEXT"@,
            ]);
        }
    }
}

/// What the user wrote is kept whole, without the white space around it; a
/// blank field is none.
pub proof fn fields_are_kept_whole(before: Seq<char>, written: Seq<char>, after: Seq<char>)
    requires
        forall|i: int| 0 <= i < before.len() ==> text::white_space(#[trigger] before[i]),
        forall|i: int| 0 <= i < after.len() ==> text::white_space(#[trigger] after[i]),
        written.len() > 0 ==> !text::white_space(written[0]) && !text::white_space(written.last()),
    ensures
        field_of(before + written + after) == (if written.len() > 0 {
            Some(written)
        } else {
            None
        }),
{
    text::trimmed_is_what_stands_between(before, written, after);
}

/// The session being recorded is the one of its own id.
pub proof fn the_current_session_is_its_own(current: Seq<char>, id: Seq<char>)
    ensures
        is_current(Some(current), id) <==> current == id,
        !is_current(None, id),
{
}

/// The journal mode is known in any case of its letters, and no other is taken
/// for it.
pub proof fn the_journal_mode_is_known(mode: Seq<char>)
    ensures
        is_wal("wal"@),
        is_wal("WAL"@),
        is_wal(mode) ==> mode.len() == 3,
        !is_wal("delete"@),
        !is_wal("off"@),
{
    reveal_strlit("wal");
    reveal_strlit("WAL");
    reveal_strlit("delete");
    reveal_strlit("off");
}

/// A session that is not there is named.
pub proof fn missing_sessions_are_named(id: Seq<char>)
    ensures
        text::occurs(missing_session(id), id),
{
    text::parts_occur("session "@, id, " not found"@);
}

} // verus!
