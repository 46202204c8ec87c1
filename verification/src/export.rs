//! A recorded session as a Markdown document.

use vstd::prelude::*;
use crate::storage::{EventRow, SessionSummary};
use crate::text;

verus! {

/// A session clock: `mm:ss`, or `h:mm:ss` from the first hour on. A clock
/// below zero shows as zero.
pub open spec fn stamp_of(t_s: int) -> Seq<char> {
    let t = if t_s > 0 {
        t_s as nat
    } else {
        0
    };
    let (h, m, s) = (t / 3600, (t % 3600) / 60, t % 60);
    if h > 0 {
        text::decimal(h) + ":"@ + text::two_digits(m) + ":"@ + text::two_digits(s)
    } else {
        text::two_digits(m) + ":"@ + text::two_digits(s)
    }
}

pub fn stamp(t_s: i64) -> (r: String)
    ensures
        r@ == stamp_of(t_s as int),
{
    let t: u64 = if t_s > 0 {
        t_s as u64
    } else {
        0
    };
    let h: u64 = t / 3600;
    let mut out = String::new();
    if h > 0 {
        text::push_decimal(&mut out, h);
        out.append(":");
    }
    text::push_two_digits(&mut out, (t % 3600) / 60);
    out.append(":");
    text::push_two_digits(&mut out, t % 60);
    assert(out@ =~= stamp_of(t_s as int));
    out
}

/// Who or what an event is from, as people read it.
pub open spec fn label_of(kind: Seq<char>, speaker: Option<Seq<char>>) -> Seq<char> {
    if kind == "transcript"@ {
        if speaker == Some("me"@) {
            "You"@
        } else {
            "Interviewer"@
        }
    } else if kind == "screen"@ {
        "Screen"@
    } else if kind == "clipboard"@ || kind == "clipboard_stealth"@ {
        "Clipboard"@
    } else if kind == "question"@ {
        "Question"@
    } else if kind == "answer"@ {
        "Answer"@
    } else if kind == "context"@ {
        "Loaded context"@
    } else {
        kind
    }
}

/// The speaker of an event as plain text.
pub open spec fn speaker_of(event: EventRow) -> Option<Seq<char>> {
    match event.speaker {
        Some(s) => Some(s@),
        None => None,
    }
}

pub fn label(event: &EventRow) -> (r: &str)
    ensures
        r@ == label_of(event.kind@, speaker_of(*event)),
{
    let kind = event.kind.as_str();
    if text::same(kind, "transcript") {
        match &event.speaker {
            Some(s) => if text::same(s.as_str(), "me") {
                "You"
            } else {
                "Interviewer"
            },
            None => "Interviewer",
        }
    } else if text::same(kind, "screen") {
        "Screen"
    } else if text::same(kind, "clipboard") || text::same(kind, "clipboard_stealth") {
        "Clipboard"
    } else if text::same(kind, "question") {
        "Question"
    } else if text::same(kind, "answer") {
        "Answer"
    } else if text::same(kind, "context") {
        "Loaded context"
    } else {
        kind
    }
}

/// Lines, each marked as a quotation.
pub open spec fn quoted(lines: Seq<Seq<char>>) -> Seq<char>
    decreases lines.len(),
{
    if lines.len() == 0 {
        seq![]
    } else {
        quoted(lines.drop_last()) + "> "@ + lines.last() + "\n"@
    }
}

/// What stands in front of an event's text.
pub open spec fn head_of(event: EventRow) -> Seq<char> {
    "**["@ + stamp_of(event.t_s as int) + "] "@ + label_of(event.kind@, speaker_of(event))
        + ":**"@
}

/// An event in the timeline: on one line, or with its lines quoted below where
/// it has several, so that they cannot break what is around them.
pub open spec fn event_text(event: EventRow) -> Seq<char> {
    if event.content@.contains('\n') {
        head_of(event) + "\n\n"@ + quoted(text::lines_of(event.content@)) + "\n"@
    } else {
        head_of(event) + " "@ + event.content@ + "\n\n"@
    }
}

/// The timeline of some events.
pub open spec fn timeline(events: Seq<EventRow>) -> Seq<char>
    decreases events.len(),
{
    if events.len() == 0 {
        seq![]
    } else {
        timeline(events.drop_last()) + event_text(events.last())
    }
}

/// A section with what the user wrote, where they wrote anything.
pub open spec fn section(heading: Seq<char>, body: Option<String>) -> Seq<char> {
    match body {
        Some(s) => "\n## "@ + heading + "\n\n"@ + s@ + "\n"@,
        None => seq![],
    }
}

/// What stands above the timeline.
pub open spec fn preamble(session: SessionSummary) -> Seq<char> {
    "# "@ + (match session.title {
        Some(title) => title@,
        None => session.name@,
    }) + "\n\n- **Recorded:** "@ + session.name@ + "\n- **Duration:** "@ + stamp_of(
        session.last_t_s as int,
    ) + "\n- **Build:** "@ + session.build@ + "\n- **Events:** "@ + text::decimal_int(
        session.event_count as int,
    ) + "\n"@ + section("Description"@, session.description) + section("Context"@, session.context)
        + "\n## Timeline\n\n"@
}

/// The whole document: heading and metadata, what the user wrote, and the full
/// timeline.
pub open spec fn markdown(session: SessionSummary, events: Seq<EventRow>) -> Seq<char> {
    preamble(session) + timeline(events)
}

fn push_section(md: &mut String, heading: &str, body: &Option<String>)
    ensures
        final(md)@ == old(md)@ + section(heading@, *body),
{
    if let Some(s) = body {
        md.append("\n## ");
        md.append(heading);
        md.append("\n\n");
        md.append(s.as_str());
        md.append("\n");
    }
    assert(md@ =~= old(md)@ + section(heading@, *body));
}

fn push_event(md: &mut String, event: &EventRow)
    ensures
        final(md)@ == old(md)@ + event_text(*event),
{
    let when = stamp(event.t_s);
    md.append("**[");
    md.append(when.as_str());
    md.append("] ");
    md.append(label(event));
    md.append(":**");
    assert(md@ =~= old(md)@ + head_of(*event));
    if text::has_char(event.content.as_str(), '\n') {
        md.append("\n\n");
        let lines = text::lines(event.content.as_str());
        let ghost before = md@;
        let ghost all = text::lines_of(event.content@);
        let mut k: usize = 0;
        assert(all.take(0) =~= seq![]);
        assert(md@ =~= before + quoted(all.take(0)));
        while k < lines.len()
            invariant
                k <= lines@.len(),
                text::views(lines@) == all,
                md@ == before + quoted(all.take(k as int)),
            decreases lines@.len() - k,
        {
            md.append("> ");
            assert(all[k as int] == lines@[k as int]@);
            md.append(lines[k].as_str());
            md.append("\n");
            assert(all.take(k + 1).drop_last() =~= all.take(k as int));
            k += 1;
            assert(md@ =~= before + quoted(all.take(k as int)));
        }
        assert(all.take(k as int) =~= all);
        md.append("\n");
        assert(md@ =~= old(md)@ + event_text(*event));
    } else {
        md.append(" ");
        md.append(event.content.as_str());
        md.append("\n\n");
        assert(md@ =~= old(md)@ + event_text(*event));
    }
}

pub fn session_markdown(session: &SessionSummary, events: &[EventRow]) -> (r: String)
    ensures
        r@ == markdown(*session, events@),
{
    let mut md = "# ".to_owned();
    match &session.title {
        Some(title) => md.append(title.as_str()),
        None => md.append(session.name.as_str()),
    }
    md.append("\n\n- **Recorded:** ");
    md.append(session.name.as_str());
    md.append("\n- **Duration:** ");
    let length = stamp(session.last_t_s);
    md.append(length.as_str());
    md.append("\n- **Build:** ");
    md.append(session.build.as_str());
    md.append("\n- **Events:** ");
    text::push_decimal_int(&mut md, session.event_count);
    md.append("\n");
    push_section(&mut md, "Description", &session.description);
    push_section(&mut md, "Context", &session.context);
    md.append("\n## Timeline\n\n");
    assert(md@ =~= preamble(*session));
    let mut k: usize = 0;
    assert(events@.take(0) =~= seq![]);
    assert(md@ =~= preamble(*session) + timeline(events@.take(0)));
    while k < events.len()
        invariant
            k <= events@.len(),
            md@ == preamble(*session) + timeline(events@.take(k as int)),
        decreases events@.len() - k,
    {
        push_event(&mut md, &events[k]);
        assert(events@.take(k + 1).drop_last() =~= events@.take(k as int));
        k += 1;
        assert(md@ =~= preamble(*session) + timeline(events@.take(k as int)));
    }
    assert(events@.take(k as int) =~= events@);
    md
}

/// A session that was recorded further exports to a document that goes on
/// where the shorter one ended: no event changes how an earlier one reads.
pub proof fn timeline_only_grows(events: Seq<EventRow>, more: Seq<EventRow>)
    ensures
        timeline(events + more) == timeline(events) + timeline(more),
    decreases more.len(),
{
    if more.len() == 0 {
        assert(events + more =~= events);
        assert(timeline(events) + timeline(more) =~= timeline(events));
    } else {
        timeline_only_grows(events, more.drop_last());
        assert((events + more).drop_last() =~= events + more.drop_last());
        assert(timeline(events + more) =~= timeline(events) + timeline(more));
    }
}

/// A clock shows its minutes and seconds, from the first hour on its hours too,
/// and nothing below zero.
pub proof fn stamps_show_the_time(h: nat, m: nat, s: nat, below: int)
    requires
        m < 60,
        s < 60,
        below <= 0,
    ensures
        h == 0 ==> stamp_of((60 * m + s) as int) == text::two_digits(m) + ":"@ + text::two_digits(s),
        h > 0 ==> stamp_of((3600 * h + 60 * m + s) as int) == text::decimal(h) + ":"@
            + text::two_digits(m) + ":"@ + text::two_digits(s),
        stamp_of(below) == text::two_digits(0) + ":"@ + text::two_digits(0),
{
    let t = 3600 * h + 60 * m + s;
    assert(t / 3600 == h);
    assert(t % 3600 == 60 * m + s);
    assert((60 * m + s) / 60 == m);
    assert(t % 60 == s);
}

/// The names that people read for each source; a source of no known name keeps
/// its own.
pub proof fn labels_name_the_source(speaker: Option<Seq<char>>)
    ensures
        label_of("transcript"@, Some("me"@)) == "You"@,
        speaker != Some("me"@) ==> label_of("transcript"@, speaker) == "Interviewer"@,
        label_of("screen"@, speaker) == "Screen"@,
        label_of("clipboard"@, speaker) == "Clipboard"@,
        label_of("clipboard_stealth"@, speaker) == "Clipboard"@,
        label_of("question"@, speaker) == "Question"@,
        label_of("answer"@, speaker) == "Answer"@,
        label_of("context"@, speaker) == "Loaded context"@,
        label_of("note"@, speaker) == "note"@,
{
    reveal_strlit("transcript");
    reveal_strlit("screen");
    reveal_strlit("clipboard");
    reveal_strlit("clipboard_stealth");
    reveal_strlit("question");
    reveal_strlit("answer");
    reveal_strlit("context");
    reveal_strlit("note");
    assert("transcript"@.len() == 10 && "screen"@.len() == 6 && "clipboard"@.len() == 9);
    assert("clipboard_stealth"@.len() == 17 && "question"@.len() == 8 && "answer"@.len() == 6);
    assert("context"@.len() == 7 && "note"@.len() == 4);
    assert("screen"@[0] == 's' && "answer"@[0] == 'a');
}

/// A line marked as a quotation, with the line feed that ends it.
pub open spec fn quotation(line: Seq<char>) -> Seq<char> {
    "> "@ + line.push('\n')
}

/// Lines marked as quotations, put together.
pub open spec fn quotations(lines: Seq<Seq<char>>) -> Seq<char> {
    lines.map_values(|line: Seq<char>| quotation(line)).flatten()
}

proof fn lemma_quoted(lines: Seq<Seq<char>>)
    ensures
        quoted(lines) == quotations(lines),
    decreases lines.len(),
{
    reveal_strlit("\n");
    let f = |line: Seq<char>| quotation(line);
    if lines.len() == 0 {
        assert(quoted(lines) =~= lines.map_values(f).flatten());
    } else {
        lemma_quoted(lines.drop_last());
        let all = lines.map_values(f);
        assert(all.drop_last() =~= lines.drop_last().map_values(f));
        assert(all =~= all.drop_last().push(all.last()));
        all.lemma_flatten_and_flatten_alt_are_equivalent();
        all.drop_last().lemma_flatten_and_flatten_alt_are_equivalent();
        assert("> "@ + lines.last() + "\n"@ =~= quotation(lines.last()));
        assert(quoted(lines) =~= all.drop_last().flatten() + quotation(lines.last()));
    }
}

/// An event reads in full: its clock, its source and all of its text. A text of
/// several lines is quoted line by line, and without the marks those lines are
/// the text again.
pub proof fn events_read_in_full(event: EventRow)
    requires
        !event.content@.contains('\r'),
    ensures
        ({
            let lead = "**["@ + stamp_of(event.t_s as int) + "] "@ + label_of(
                event.kind@,
                speaker_of(event),
            ) + ":**"@;
            let said = event.content@;
            &&& !said.contains('\n') ==> event_text(event) == lead + " "@ + said + "\n\n"@
            &&& said.contains('\n') ==> exists|lines: Seq<Seq<char>>|
                {
                    &&& event_text(event) == lead + "\n\n"@ + #[trigger] quotations(lines) + "\n"@
                    &&& lines.map_values(|line: Seq<char>| text::ended_line(line)).flatten() == (if
                    said.last() == '\n' {
                        said
                    } else {
                        said.push('\n')
                    })
                    &&& forall|i: int| 0 <= i < lines.len() ==> !(#[trigger] lines[i]).contains('\n')
                }
        }),
{
    let lines = text::lines_of(event.content@);
    text::lines_give_the_text_back(event.content@);
    lemma_quoted(lines);
    if event.content@.contains('\n') {
        assert(event_text(event) == head_of(event) + "\n\n"@ + quotations(lines) + "\n"@);
    }
}

/// Every event of a session stands in its document, in its place.
pub proof fn every_event_is_exported(
    session: SessionSummary,
    before: Seq<EventRow>,
    event: EventRow,
    after: Seq<EventRow>,
)
    ensures
        markdown(session, before.push(event) + after) == markdown(session, before) + event_text(
            event,
        ) + timeline(after),
        text::occurs(markdown(session, before.push(event) + after), event_text(event)),
{
    timeline_only_grows(before.push(event), after);
    assert(before.push(event).drop_last() =~= before);
    let (a, b) = (markdown(session, before), timeline(after));
    assert(markdown(session, before.push(event) + after) =~= a + event_text(event) + b);
    text::parts_occur(a, event_text(event), b);
}

/// The document opens with the session's title, or its name where it has none,
/// and holds what the user wrote about it, whole and under its heading, in
/// front of the timeline.
pub proof fn documents_hold_what_was_written(session: SessionSummary)
    ensures
        ({
            let title = match session.title {
                Some(title) => title@,
                None => session.name@,
            };
            let facts = "\n\n- **Recorded:** "@ + session.name@ + "\n- **Duration:** "@ + stamp_of(
                session.last_t_s as int,
            ) + "\n- **Build:** "@ + session.build@ + "\n- **Events:** "@ + text::decimal_int(
                session.event_count as int,
            ) + "\n"@;
            let description = match session.description {
                Some(s) => "\n## "@ + "Description"@ + "\n\n"@ + s@ + "\n"@,
                None => Seq::<char>::empty(),
            };
            let context = match session.context {
                Some(s) => "\n## "@ + "Context"@ + "\n\n"@ + s@ + "\n"@,
                None => Seq::<char>::empty(),
            };
            markdown(session, seq![]) == "# "@ + title + facts + description + context
                + "\n## Timeline\n\n"@
        }),
{
    assert(timeline(seq![]) =~= Seq::<char>::empty());
    let title = match session.title {
        Some(title) => title@,
        None => session.name@,
    };
    let facts = "\n\n- **Recorded:** "@ + session.name@ + "\n- **Duration:** "@ + stamp_of(
        session.last_t_s as int,
    ) + "\n- **Build:** "@ + session.build@ + "\n- **Events:** "@ + text::decimal_int(
        session.event_count as int,
    ) + "\n"@;
    assert(markdown(session, seq![]) =~= "# "@ + title + facts + section(
        "Description"@,
        session.description,
    ) + section("Context"@, session.context) + "\n## Timeline\n\n"@);
}

} // verus!
