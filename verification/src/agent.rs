//! The agent's memory: the rolling transcript of the interview and the
//! interview state that is kept up to date in the background.
//!
//! Every final line of speech, screen description and clipboard text is
//! appended to the transcript. Lines are never rewritten, so the prompt that
//! starts with them only grows at its end and the provider's cache keeps
//! paying. The state is a small document that a cheap model rewrites every so
//! often from what was added since.

use vstd::prelude::*;
use crate::backend;
use crate::context_meter;
use crate::storage::Event;
use crate::storage;
use crate::text;

verus! {

/// New transcript, in bytes, after which the state is refreshed.
pub const REFRESH_DELTA_CHARS: u64 = 10_000;

/// A state older than this is refreshed on an agent press, in seconds.
pub const STALE_AFTER_SECS: u64 = 300;

/// Below this much new transcript, in bytes, a press refreshes nothing.
pub const MIN_DELTA_CHARS: u64 = 1_200;

/// The longest state document that is kept, in bytes: it goes along with every
/// press, so it must not run away.
pub const STATE_MAX_CHARS: usize = 8_000;

const NS_PER_S: u64 = 1_000_000_000;

// ── Lines ──────────────────────────────────────────────────────────────────

/// A line of the transcript, with the seconds since the session started.
pub struct TranscriptLine {
    pub speaker: &'static str,
    pub text: String,
    pub t_s: u64,
}

/// `TranscriptLine` over plain text.
pub struct LineView {
    pub speaker: Seq<char>,
    pub text: Seq<char>,
    pub t_s: u64,
}

impl View for TranscriptLine {
    type V = LineView;

    open spec fn view(&self) -> LineView {
        LineView { speaker: self.speaker@, text: self.text@, t_s: self.t_s }
    }
}

/// How the prompt names a source.
pub open spec fn source_label(speaker: Seq<char>) -> Seq<char> {
    if speaker == "me"@ {
        "You"@
    } else if speaker == "screen"@ {
        "Screen"@
    } else if speaker == "clipboard"@ {
        "Clipboard"@
    } else {
        "Interviewer"@
    }
}

pub fn label(speaker: &str) -> (r: &'static str)
    ensures
        r@ == source_label(speaker@),
{
    if text::same(speaker, "me") {
        "You"
    } else if text::same(speaker, "screen") {
        "Screen"
    } else if text::same(speaker, "clipboard") {
        "Clipboard"
    } else {
        "Interviewer"
    }
}

/// A line as the prompt holds it: `[mm:ss] Label: text`, with minutes past the
/// hour counted on.
pub open spec fn line_text(t_s: u64, speaker: Seq<char>, said: Seq<char>) -> Seq<char> {
    "["@ + text::two_digits((t_s / 60) as nat) + ":"@ + text::two_digits((t_s % 60) as nat) + "] "@
        + source_label(speaker) + ": "@ + said
}

pub fn format_line(t_s: u64, speaker: &str, said: &str) -> (r: String)
    ensures
        r@ == line_text(t_s, speaker@, said@),
{
    let mut out = "[".to_owned();
    text::push_two_digits(&mut out, t_s / 60);
    out.append(":");
    text::push_two_digits(&mut out, t_s % 60);
    out.append("] ");
    out.append(label(speaker));
    out.append(": ");
    out.append(said);
    out
}

/// The views of some lines.
pub open spec fn line_views(lines: Seq<TranscriptLine>) -> Seq<LineView> {
    lines.map_values(|l: TranscriptLine| l@)
}

/// Each line as the prompt holds it.
pub open spec fn line_texts(lines: Seq<LineView>) -> Seq<Seq<char>> {
    lines.map_values(|l: LineView| line_text(l.t_s, l.speaker, l.text))
}

/// The transcript as the prompt holds it.
pub open spec fn transcript_of(lines: Seq<LineView>) -> Seq<char> {
    text::joined(line_texts(lines), "\n"@)
}

/// A line as the state keeper is shown it, without its time.
pub open spec fn delta_line(l: LineView) -> Seq<char> {
    source_label(l.speaker) + ": "@ + l.text
}

/// The lines as the state keeper is shown them.
pub open spec fn delta_of(lines: Seq<LineView>) -> Seq<char> {
    text::joined(lines.map_values(|l: LineView| delta_line(l)), "\n"@)
}

// ── The session ────────────────────────────────────────────────────────────

/// What the session holds.
#[verifier::ext_equal]
pub struct SessionView {
    /// When it started, on the machine's clock.
    pub started_ns: u64,
    pub lines: Seq<LineView>,
    /// Bytes of text ever appended.
    pub chars_total: u64,
    /// Tokens ever appended, one more for each line's end.
    pub line_tokens: u64,
    /// The interview state: empty until the first refresh.
    pub state_block: Seq<char>,
    /// How many lines the state covers.
    pub covered: u64,
    /// `chars_total` when the last refresh began.
    pub chars_at_refresh: u64,
    /// When the last refresh ended, in seconds since the epoch, or 0.
    pub state_epoch_s: u64,
    /// Whether a refresh is under way.
    pub in_flight: bool,
}

/// The sum of two counters, which start over when they run full.
pub open spec fn counted(a: u64, b: int) -> u64 {
    ((a + b) % (u64::MAX + 1)) as u64
}

/// The session after a line is appended that takes so many tokens.
pub open spec fn appended(
    v: SessionView,
    speaker: Seq<char>,
    said: Seq<char>,
    t_s: u64,
    tokens: int,
) -> SessionView {
    SessionView {
        lines: v.lines.push(LineView { speaker, text: said, t_s }),
        chars_total: counted(v.chars_total, text::bytes_in(said) as int),
        line_tokens: counted(v.line_tokens, tokens + 1),
        ..v
    }
}

/// The transcript appended since the last refresh began, in bytes.
pub open spec fn unrefreshed(v: SessionView) -> int {
    if v.chars_total > v.chars_at_refresh {
        v.chars_total - v.chars_at_refresh
    } else {
        0
    }
}

/// Whether a refresh is due for what was appended.
pub open spec fn refresh_due(v: SessionView) -> bool {
    unrefreshed(v) >= REFRESH_DELTA_CHARS
}

/// Whether an agent press should bring the state up to date: it is old, and
/// enough was said since.
pub open spec fn is_stale(v: SessionView, now_epoch_s: u64) -> bool {
    now_epoch_s - v.state_epoch_s >= STALE_AFTER_SECS && unrefreshed(v) >= MIN_DELTA_CHARS
}

/// Seconds from the start of the session to `now_ns`.
pub open spec fn clock(v: SessionView, now_ns: u64) -> u64 {
    if now_ns > v.started_ns {
        ((now_ns - v.started_ns) / 1_000_000_000) as u64
    } else {
        0
    }
}

/// The session after a refresh gave a new state for the first `upto` lines.
pub open spec fn state_committed(
    v: SessionView,
    new_state: Seq<char>,
    upto: u64,
    now_epoch_s: u64,
) -> SessionView {
    SessionView {
        state_block: text::byte_head(new_state, STATE_MAX_CHARS as int),
        covered: upto,
        state_epoch_s: now_epoch_s,
        ..v
    }
}

/// What a refresh works on: the state so far and the lines since.
pub struct Delta {
    pub prev_state: String,
    pub lines: String,
    /// How many lines the new state will cover.
    pub upto: u64,
    /// The length of `lines` in bytes.
    pub chars: u64,
}

/// Whether there are lines that the state does not cover.
pub open spec fn has_delta(v: SessionView) -> bool {
    v.lines.len() > v.covered
}

/// Whether `d` is what a refresh of the session works on.
pub open spec fn is_delta(v: SessionView, d: Delta) -> bool {
    &&& d.prev_state@ == v.state_block
    &&& d.lines@ == delta_of(v.lines.skip(v.covered as int))
    &&& d.upto == v.lines.len()
    &&& d.chars == text::bytes_in(d.lines@)
}

/// What became of a refresh.
pub enum RefreshOutcome {
    /// The new state.
    Done(String),
    Failed,
}

/// A line taken in: what to record, and what to do next.
pub struct Ingested {
    pub event: Event,
    /// A refresh of the state is due.
    pub refresh_due: bool,
    /// An agent press that waits for the interviewer can go on.
    pub wakes_press: bool,
}

pub struct AgentSession {
    started_ns: u64,
    lines: Vec<TranscriptLine>,
    chars_total: u64,
    line_tokens: u64,
    state_block: String,
    state_covered_lines: u64,
    chars_at_refresh: u64,
    state_epoch_s: u64,
    refresh_in_flight: bool,
}

impl View for AgentSession {
    type V = SessionView;

    closed spec fn view(&self) -> SessionView {
        SessionView {
            started_ns: self.started_ns,
            lines: line_views(self.lines@),
            chars_total: self.chars_total,
            line_tokens: self.line_tokens,
            state_block: self.state_block@,
            covered: self.state_covered_lines,
            chars_at_refresh: self.chars_at_refresh,
            state_epoch_s: self.state_epoch_s,
            in_flight: self.refresh_in_flight,
        }
    }
}

/// How the log files a line of that source.
pub open spec fn kind_of(speaker: Seq<char>) -> Seq<char> {
    if speaker == "screen"@ {
        "screen"@
    } else if speaker == "clipboard"@ {
        "clipboard"@
    } else {
        "transcript"@
    }
}

pub fn line_kind(speaker: &str) -> (r: &'static str)
    ensures
        r@ == kind_of(speaker@),
{
    if text::same(speaker, "screen") {
        "screen"
    } else if text::same(speaker, "clipboard") {
        "clipboard"
    } else {
        "transcript"
    }
}

/// A session that starts at `now_ns`, before anything was said.
pub open spec fn fresh(now_ns: u64) -> SessionView {
    SessionView {
        started_ns: now_ns,
        lines: seq![],
        chars_total: 0,
        line_tokens: 0,
        state_block: seq![],
        covered: 0,
        chars_at_refresh: 0,
        state_epoch_s: 0,
        in_flight: false,
    }
}

/// A line to append: who said what, when, and how many tokens it takes.
pub struct Saying {
    pub speaker: Seq<char>,
    pub said: Seq<char>,
    pub t_s: u64,
    pub tokens: nat,
}

/// The session after these lines were appended in turn.
pub open spec fn all_appended(v: SessionView, sayings: Seq<Saying>) -> SessionView
    decreases sayings.len(),
{
    if sayings.len() == 0 {
        v
    } else {
        let last = sayings.last();
        appended(
            all_appended(v, sayings.drop_last()),
            last.speaker,
            last.said,
            last.t_s,
            last.tokens as int,
        )
    }
}

/// What was said, in bytes: labels and times do not count.
pub open spec fn bytes_said(sayings: Seq<Saying>) -> nat
    decreases sayings.len(),
{
    if sayings.len() == 0 {
        0
    } else {
        bytes_said(sayings.drop_last()) + text::bytes_in(sayings.last().said)
    }
}

/// What was appended since the last refresh began is what was said since: a
/// refresh is due exactly once that is enough, however many lines it took.
pub proof fn refreshes_are_due_by_what_was_said(v: SessionView, sayings: Seq<Saying>)
    requires
        v.chars_at_refresh <= v.chars_total,
        v.chars_total + bytes_said(sayings) <= u64::MAX,
    ensures
        unrefreshed(all_appended(v, sayings)) == unrefreshed(v) + bytes_said(sayings),
        refresh_due(all_appended(v, sayings)) <==> unrefreshed(v) + bytes_said(sayings)
            >= REFRESH_DELTA_CHARS,
        all_appended(v, sayings).chars_total == v.chars_total + bytes_said(sayings),
        all_appended(v, sayings).chars_at_refresh == v.chars_at_refresh,
    decreases sayings.len(),
{
    if sayings.len() > 0 {
        refreshes_are_due_by_what_was_said(v, sayings.drop_last());
    }
}

/// The first refresh of a session is due exactly once enough was said in it.
pub proof fn first_refresh_is_due_by_what_was_said(now_ns: u64, sayings: Seq<Saying>)
    requires
        bytes_said(sayings) <= u64::MAX,
    ensures
        refresh_due(all_appended(fresh(now_ns), sayings)) <==> bytes_said(sayings)
            >= REFRESH_DELTA_CHARS,
{
    refreshes_are_due_by_what_was_said(fresh(now_ns), sayings);
}

impl AgentSession {
    /// A session that starts at `now_ns`.
    pub fn new(now_ns: u64) -> (r: Self)
        ensures
            r@ == fresh(now_ns),
    {
        let r = AgentSession {
            started_ns: now_ns,
            lines: Vec::new(),
            chars_total: 0,
            line_tokens: 0,
            state_block: String::new(),
            state_covered_lines: 0,
            chars_at_refresh: 0,
            state_epoch_s: 0,
            refresh_in_flight: false,
        };
        assert(r@.lines =~= seq![]);
        assert(r@.state_block =~= seq![]);
        r
    }

    /// Appends a line whose tokens were counted. Gives whether a refresh of
    /// the state is due.
    pub fn append(&mut self, speaker: &'static str, said: &str, t_s: u64, tokens: usize) -> (r: bool)
        ensures
            final(self)@ == appended(old(self)@, speaker@, said@, t_s, tokens as int),
            r == refresh_due(final(self)@),
    {
        let ghost before = self@;
        let line = TranscriptLine { speaker, text: said.to_owned(), t_s };
        self.line_tokens = self.line_tokens.wrapping_add(tokens as u64).wrapping_add(1);
        self.lines.push(line);
        self.chars_total = self.chars_total.wrapping_add(text::byte_len(said) as u64);
        assert(self@.lines =~= before.lines.push(line@));
        assert(self@ =~= appended(before, speaker@, said@, t_s, tokens as int));
        self.chars_total.saturating_sub(self.chars_at_refresh) >= REFRESH_DELTA_CHARS
    }

    /// Appends a line at `now_ns`. Gives its clock and whether a refresh is
    /// due; `None`, with nothing appended, where the tokenizer gives up on the
    /// line.
    pub fn push(&mut self, speaker: &'static str, said: &str, now_ns: u64) -> (r: Option<
        (u64, bool),
    >)
        ensures
            ({
                let t_s = clock(old(self)@, now_ns);
                let tokens = context_meter::token_count(line_text(t_s, speaker@, said@));
                match r {
                    Some((at, due)) => {
                        &&& tokens is Some
                        &&& at == t_s
                        &&& final(self)@ == appended(
                            old(self)@,
                            speaker@,
                            said@,
                            t_s,
                            tokens->0 as int,
                        )
                        &&& due == refresh_due(final(self)@)
                    },
                    None => tokens is None && final(self)@ == old(self)@,
                }
            }),
    {
        let t_s: u64 = self.elapsed_s(now_ns);
        let line = format_line(t_s, speaker, said);
        match context_meter::count_tokens(line.as_str()) {
            Some(tokens) => {
                let due = self.append(speaker, said, t_s, tokens);
                Some((t_s, due))
            },
            None => None,
        }
    }

    /// Seconds from the start of the session to `now_ns`.
    pub fn elapsed_s(&self, now_ns: u64) -> (r: u64)
        ensures
            r == clock(self@, now_ns),
    {
        now_ns.saturating_sub(self.started_ns) / NS_PER_S
    }

    /// The whole transcript as the prompt holds it, and the number of its
    /// lines.
    pub fn transcript_text(&self) -> (r: (String, usize))
        ensures
            r.0@ == transcript_of(self@.lines),
            r.1 == self@.lines.len(),
    {
        let mut parts: Vec<String> = Vec::new();
        let ghost all = line_texts(self@.lines);
        let mut k: usize = 0;
        assert(text::views(parts@) =~= all.take(0));
        while k < self.lines.len()
            invariant
                k <= self.lines@.len(),
                all == line_texts(self@.lines),
                text::views(parts@) == all.take(k as int),
            decreases self.lines@.len() - k,
        {
            let ghost so_far = parts@;
            let l = &self.lines[k];
            let part = format_line(l.t_s, l.speaker, l.text.as_str());
            assert(all[k as int] == part@);
            parts.push(part);
            assert(text::views(parts@) =~= text::views(so_far).push(part@));
            k += 1;
            assert(text::views(parts@) =~= all.take(k as int));
        }
        assert(all.take(k as int) =~= all);
        (text::join(&parts, "\n"), self.lines.len())
    }

    /// The local count of the transcript's tokens.
    pub fn line_tokens_total(&self) -> (r: u64)
        ensures
            r == self@.line_tokens,
    {
        self.line_tokens
    }

    /// Bytes of text ever appended.
    pub fn chars_total(&self) -> (r: u64)
        ensures
            r == self@.chars_total,
    {
        self.chars_total
    }

    /// The interview state.
    pub fn state_block(&self) -> (r: String)
        ensures
            r@ == self@.state_block,
    {
        self.state_block.clone()
    }

    /// What a refresh would work on, if anything was added since the last.
    pub fn snapshot_delta(&self) -> (r: Option<Delta>)
        ensures
            r is Some <==> has_delta(self@),
            r matches Some(d) ==> is_delta(self@, d),
    {
        if self.lines.len() as u64 <= self.state_covered_lines {
            return None;
        }
        let from: usize = self.state_covered_lines as usize;
        let ghost rest = self@.lines.skip(from as int);
        let ghost all = rest.map_values(|l: LineView| delta_line(l));
        let mut parts: Vec<String> = Vec::new();
        let mut k: usize = from;
        assert(text::views(parts@) =~= all.take(0));
        while k < self.lines.len()
            invariant
                from <= k <= self.lines@.len(),
                rest == self@.lines.skip(from as int),
                all == rest.map_values(|l: LineView| delta_line(l)),
                text::views(parts@) == all.take(k - from),
            decreases self.lines@.len() - k,
        {
            let ghost so_far = parts@;
            let l = &self.lines[k];
            let mut part = label(l.speaker).to_owned();
            part.append(": ");
            part.append(l.text.as_str());
            assert(rest[k - from] == l@);
            assert(all[k - from] == part@);
            parts.push(part);
            assert(text::views(parts@) =~= text::views(so_far).push(part@));
            k += 1;
            assert(text::views(parts@) =~= all.take(k - from));
        }
        assert(all.take(k - from) =~= all);
        let lines = text::join(&parts, "\n");
        let chars: u64 = text::byte_len(lines.as_str()) as u64;
        Some(
            Delta {
                prev_state: self.state_block.clone(),
                lines,
                upto: self.lines.len() as u64,
                chars,
            },
        )
    }

    /// Takes on a new state that covers the first `covered_upto` lines, cut
    /// where it is too long.
    pub fn commit_state(&mut self, new_state: String, covered_upto: u64, now_epoch_s: u64)
        ensures
            final(self)@ == state_committed(old(self)@, new_state@, covered_upto, now_epoch_s),
    {
        self.state_block = text::take_bytes(new_state.as_str(), STATE_MAX_CHARS).to_owned();
        self.state_covered_lines = covered_upto;
        self.state_epoch_s = now_epoch_s;
    }

    /// Whether an agent press at `now_epoch_s` should bring the state up to
    /// date.
    pub fn needs_refresh(&self, now_epoch_s: u64) -> (r: bool)
        ensures
            r == is_stale(self@, now_epoch_s),
    {
        now_epoch_s.saturating_sub(self.state_epoch_s) >= STALE_AFTER_SECS
            && self.chars_total.saturating_sub(self.chars_at_refresh) >= MIN_DELTA_CHARS
    }

    /// Begin a refresh, where none is under way and there is something new.
    pub fn begin_refresh(&mut self) -> (r: Option<Delta>)
        ensures
            r is Some <==> !old(self)@.in_flight && has_delta(old(self)@),
            r matches Some(d) ==> is_delta(old(self)@, d) && final(self)@ == (SessionView {
                in_flight: true,
                chars_at_refresh: old(self)@.chars_total,
                ..old(self)@
            }),
            r is None ==> final(self)@ == old(self)@,
    {
        if self.refresh_in_flight {
            return None;
        }
        match self.snapshot_delta() {
            Some(delta) => {
                self.refresh_in_flight = true;
                self.chars_at_refresh = self.chars_total;
                Some(delta)
            },
            None => None,
        }
    }

    /// Begin a refresh on an agent press, where the state is stale.
    pub fn refresh_if_stale(&mut self, now_epoch_s: u64) -> (r: Option<Delta>)
        ensures
            r is Some <==> is_stale(old(self)@, now_epoch_s) && !old(self)@.in_flight && has_delta(
                old(self)@,
            ),
            r matches Some(d) ==> is_delta(old(self)@, d) && final(self)@ == (SessionView {
                in_flight: true,
                chars_at_refresh: old(self)@.chars_total,
                ..old(self)@
            }),
            r is None ==> final(self)@ == old(self)@,
    {
        if self.needs_refresh(now_epoch_s) {
            self.begin_refresh()
        } else {
            None
        }
    }

    /// End a refresh. One that failed is tried again only once more was said.
    pub fn end_refresh(&mut self, outcome: RefreshOutcome, covered_upto: u64, now_epoch_s: u64)
        ensures
            final(self)@ == (SessionView {
                in_flight: false,
                ..match outcome {
                    RefreshOutcome::Done(new_state) => state_committed(
                        old(self)@,
                        new_state@,
                        covered_upto,
                        now_epoch_s,
                    ),
                    RefreshOutcome::Failed => old(self)@,
                }
            }),
    {
        match outcome {
            RefreshOutcome::Done(new_state) => {
                self.commit_state(new_state, covered_upto, now_epoch_s);
            },
            RefreshOutcome::Failed => {},
        }
        self.refresh_in_flight = false;
    }

    /// Takes in a text from any source, filed under `kind`, at `now_ns`. A
    /// blank text is ignored, and so is one that the tokenizer gives up on.
    pub fn push_line_tagged(
        &mut self,
        speaker: &'static str,
        kind: &'static str,
        raw: &str,
        now_ns: u64,
    ) -> (r: Option<Ingested>)
        ensures
            ({
                let said = text::trimmed(raw@);
                let t_s = clock(old(self)@, now_ns);
                let tokens = context_meter::token_count(line_text(t_s, speaker@, said));
                if said.len() == 0 || tokens is None {
                    r is None && final(self)@ == old(self)@
                } else {
                    &&& final(self)@ == appended(
                        old(self)@,
                        speaker@,
                        said,
                        t_s,
                        tokens->0 as int,
                    )
                    &&& r matches Some(got) && got.event@ == (storage::EventView {
                        kind: kind@,
                        speaker: if kind@ == "transcript"@ {
                            Some(speaker@)
                        } else {
                            None
                        },
                        content: said,
                        t_s,
                        meta: None,
                    }) && got.refresh_due == refresh_due(final(self)@) && got.wakes_press == (kind@
                        == "transcript"@ && speaker@ == "interviewer"@)
                }
            }),
    {
        let said = text::trim(raw);
        if said.unicode_len() == 0 {
            return None;
        }
        let (t_s, due) = match self.push(speaker, said, now_ns) {
            Some(pair) => pair,
            None => return None,
        };
        let spoken = text::same(kind, "transcript");
        Some(
            Ingested {
                event: Event {
                    kind,
                    speaker: if spoken {
                        Some(speaker)
                    } else {
                        None
                    },
                    content: said.to_owned(),
                    t_s,
                    meta: None,
                },
                refresh_due: due,
                wakes_press: spoken && text::same(speaker, "interviewer"),
            },
        )
    }

    /// Takes in a text from any source, filed by its source.
    pub fn push_line(&mut self, speaker: &'static str, raw: &str, now_ns: u64) -> (r: Option<
        Ingested,
    >)
        ensures
            ({
                let said = text::trimmed(raw@);
                let t_s = clock(old(self)@, now_ns);
                let tokens = context_meter::token_count(line_text(t_s, speaker@, said));
                if said.len() == 0 || tokens is None {
                    r is None && final(self)@ == old(self)@
                } else {
                    &&& final(self)@ == appended(
                        old(self)@,
                        speaker@,
                        said,
                        t_s,
                        tokens->0 as int,
                    )
                    &&& r matches Some(got) && got.event@ == (storage::EventView {
                        kind: kind_of(speaker@),
                        speaker: if kind_of(speaker@) == "transcript"@ {
                            Some(speaker@)
                        } else {
                            None
                        },
                        content: said,
                        t_s,
                        meta: None,
                    }) && got.refresh_due == refresh_due(final(self)@) && got.wakes_press == (kind_of(
                        speaker@,
                    ) == "transcript"@ && speaker@ == "interviewer"@)
                }
            }),
    {
        self.push_line_tagged(speaker, line_kind(speaker), raw, now_ns)
    }
}

// ── Laws ───────────────────────────────────────────────────────────────────

/// The transcript is append-only: whatever is added, the text sent before is
/// the beginning of the text sent after.
pub proof fn transcript_only_grows(lines: Seq<LineView>, more: Seq<LineView>)
    ensures
        text::begins_with(transcript_of(lines + more), transcript_of(lines)),
    decreases more.len(),
{
    if more.len() == 0 {
        assert(lines + more =~= lines);
        assert(transcript_of(lines).take(transcript_of(lines).len() as int) =~= transcript_of(
            lines,
        ));
    } else {
        let shorter = lines + more.drop_last();
        transcript_only_grows(lines, more.drop_last());
        let all = line_texts(lines + more);
        assert(all.drop_last() =~= line_texts(shorter));
        assert(text::begins_with(transcript_of(lines + more), transcript_of(shorter))) by {
            if shorter.len() == 0 {
                assert(transcript_of(shorter) =~= seq![]);
                assert(transcript_of(lines + more).take(0) =~= seq![]);
            } else {
                assert(transcript_of(lines + more) == transcript_of(shorter) + "\n"@ + all.last());
                assert(transcript_of(lines + more).take(transcript_of(shorter).len() as int)
                    =~= transcript_of(shorter));
            }
        }
        let (a, b, c) = (transcript_of(lines), transcript_of(shorter), transcript_of(lines + more));
        assert(c.take(a.len() as int) =~= a) by {
            assert forall|i: int| 0 <= i < a.len() implies c[i] == a[i] by {
                assert(c.take(b.len() as int)[i] == c[i]);
                assert(b.take(a.len() as int)[i] == b[i]);
            }
        }
    }
}

/// The texts of a request's messages, one after the other.
pub open spec fn prompt_texts(messages: Seq<backend::MessageView>) -> Seq<char>
    decreases messages.len(),
{
    if messages.len() == 0 {
        seq![]
    } else {
        prompt_texts(messages.drop_last()) + (match messages.last().content {
            backend::ContentView::Text(s) => s,
            backend::ContentView::Parts(_) => seq![],
        })
    }
}

/// The provider's cache keeps paying: between two presses on one model and in
/// one language, everything the first sent before its tail is the beginning of
/// what the second sends, whatever was said and however the state changed in
/// between.
pub proof fn cached_prefix_survives(
    model: Seq<char>,
    system: Seq<char>,
    lines: Seq<LineView>,
    more: Seq<LineView>,
    tail1: Seq<char>,
    tail2: Seq<char>,
)
    ensures
        ({
            let first = backend::agent_chat(model, system, transcript_of(lines), tail1);
            let second = backend::agent_chat(model, system, transcript_of(lines + more), tail2);
            text::begins_with(
                prompt_texts(second.messages),
                prompt_texts(first.messages.drop_last()),
            )
        }),
{
    transcript_only_grows(lines, more);
    let first = backend::agent_chat(model, system, transcript_of(lines), tail1);
    let second = backend::agent_chat(model, system, transcript_of(lines + more), tail2);
    let (a, b) = (first.messages.drop_last(), second.messages.drop_last());
    assert(a.drop_last().drop_last() =~= seq![]);
    assert(b.drop_last().drop_last() =~= seq![]);
    assert(prompt_texts(a.drop_last().drop_last()) =~= seq![]);
    assert(prompt_texts(a.drop_last()) =~= system);
    assert(prompt_texts(b.drop_last()) =~= system);
    assert(prompt_texts(a) == system + transcript_of(lines));
    assert(prompt_texts(b) == system + transcript_of(lines + more));
    assert(prompt_texts(second.messages) == prompt_texts(b) + tail2);
    let (p, w) = (prompt_texts(a), prompt_texts(second.messages));
    assert(w.take(p.len() as int) =~= p) by {
        assert forall|i: int| 0 <= i < p.len() implies w[i] == p[i] by {
            if i >= system.len() {
                let k = i - system.len();
                assert(transcript_of(lines + more).take(transcript_of(lines).len() as int)[k]
                    == transcript_of(lines + more)[k]);
            }
        }
    }
}

/// Nothing is skipped and nothing is told twice: a refresh that succeeded
/// leaves only what was said after it began for the next one.
pub proof fn refreshes_cover_every_line_once(
    v: SessionView,
    during: Seq<LineView>,
    new_state: Seq<char>,
    now_epoch_s: u64,
)
    requires
        v.covered <= v.lines.len() <= u64::MAX,
    ensures
        ({
            let later = SessionView { lines: v.lines + during, ..v };
            let after = state_committed(later, new_state, v.lines.len() as u64, now_epoch_s);
            after.lines.skip(after.covered as int) == during
        }),
{
    assert((v.lines + during).skip(v.lines.len() as int) =~= during);
}

/// A failed refresh is not tried again at once: right after one began, neither
/// of the two triggers fires until more was said.
pub proof fn failed_refresh_waits_for_more(v: SessionView, now_epoch_s: u64)
    ensures
        ({
            let begun = SessionView { in_flight: true, chars_at_refresh: v.chars_total, ..v };
            let failed = SessionView { in_flight: false, ..begun };
            !refresh_due(failed) && !is_stale(failed, now_epoch_s)
        }),
{
}

/// The state document never grows past its limit, whatever the model writes,
/// and a document within the limit is kept as it is.
pub proof fn state_stays_small(
    v: SessionView,
    new_state: Seq<char>,
    upto: u64,
    now_epoch_s: u64,
)
    ensures
        ({
            let kept = state_committed(v, new_state, upto, now_epoch_s).state_block;
            &&& text::bytes_in(kept) <= STATE_MAX_CHARS
            &&& text::begins_with(new_state, kept)
            &&& text::bytes_in(new_state) <= STATE_MAX_CHARS ==> kept == new_state
        }),
{
    text::byte_head_is_longest(new_state, STATE_MAX_CHARS as int);
    assert(new_state.take(new_state.len() as int) =~= new_state);
}

/// The prompt calls the user "You", names the screen and the clipboard, and
/// takes every other voice for the interviewer's.
pub proof fn labels_name_the_source(speaker: Seq<char>)
    ensures
        source_label("me"@) == "You"@,
        source_label("screen"@) == "Screen"@,
        source_label("clipboard"@) == "Clipboard"@,
        source_label("interviewer"@) == "Interviewer"@,
        speaker != "me"@ && speaker != "screen"@ && speaker != "clipboard"@ ==> source_label(
            speaker,
        ) == "Interviewer"@,
        kind_of("screen"@) == "screen"@,
        kind_of("clipboard"@) == "clipboard"@,
        kind_of("me"@) == "transcript"@,
        kind_of("interviewer"@) == "transcript"@,
{
    reveal_strlit("me");
    reveal_strlit("screen");
    reveal_strlit("clipboard");
    reveal_strlit("interviewer");
    assert("screen"@[0] == 's' && "clipboard"@[0] == 'c');
    assert("me"@[0] == 'm' && "interviewer"@[0] == 'i');
}

/// The transcript after a line is the transcript before it, a line feed where
/// there was one, and the line: its clock, its source and all that was said. So
/// however long an interview gets, its transcript ends with what was said last.
pub proof fn transcript_ends_with_the_newest_line(lines: Seq<LineView>, l: LineView)
    ensures
        ({
            let clock = "["@ + text::two_digits((l.t_s / 60) as nat) + ":"@ + text::two_digits(
                (l.t_s % 60) as nat,
            ) + "] "@;
            let newest = clock + source_label(l.speaker) + ": "@ + l.text;
            transcript_of(lines.push(l)) == (if lines.len() == 0 {
                newest
            } else {
                transcript_of(lines) + "\n"@ + newest
            })
        }),
        transcript_of(seq![]) == Seq::<char>::empty(),
{
    let all = line_texts(lines.push(l));
    assert(all.drop_last() =~= line_texts(lines));
    assert(all.last() == line_text(l.t_s, l.speaker, l.text));
    assert(line_texts(seq![]) =~= Seq::<Seq<char>>::empty());
}

/// The state keeper is shown every new line in full, in order.
pub proof fn refreshes_are_shown_every_word(lines: Seq<LineView>, l: LineView)
    ensures
        delta_of(lines.push(l)) == (if lines.len() == 0 {
            Seq::<char>::empty()
        } else {
            delta_of(lines) + "\n"@
        }) + (source_label(l.speaker) + ": "@ + l.text),
        delta_of(seq![]) == Seq::<char>::empty(),
{
    let f = |l: LineView| delta_line(l);
    let all = lines.push(l).map_values(f);
    assert(all.drop_last() =~= lines.map_values(f));
    assert(all.last() == delta_line(l));
    assert(Seq::<LineView>::empty().map_values(f) =~= Seq::<Seq<char>>::empty());
    assert(delta_of(lines.push(l)) =~= (if lines.len() == 0 {
        Seq::<char>::empty()
    } else {
        delta_of(lines) + "\n"@
    }) + (source_label(l.speaker) + ": "@ + l.text));
}

/// The tokens of some lines, one more for each line's end.
pub open spec fn tokens_said(sayings: Seq<Saying>) -> nat
    decreases sayings.len(),
{
    if sayings.len() == 0 {
        0
    } else {
        tokens_said(sayings.drop_last()) + sayings.last().tokens + 1
    }
}

/// A session keeps every line it is given, in order and as it was said, behind
/// those it had, and counts each line's tokens; nothing else of it changes but
/// the count of what was said.
pub proof fn lines_are_kept_in_order(v: SessionView, sayings: Seq<Saying>)
    ensures
        ({
            let after = all_appended(v, sayings);
            let n = v.lines.len() as int;
            &&& after.lines.len() == n + sayings.len()
            &&& after.lines.take(n) == v.lines
            &&& forall|i: int|
                0 <= i < sayings.len() ==> {
                    let l = #[trigger] after.lines[n + i];
                    l.speaker == sayings[i].speaker && l.text == sayings[i].said && l.t_s
                        == sayings[i].t_s
                }
            &&& v.line_tokens + tokens_said(sayings) <= u64::MAX ==> after.line_tokens
                == v.line_tokens + tokens_said(sayings)
            &&& after.started_ns == v.started_ns
            &&& after.state_block == v.state_block
            &&& after.covered == v.covered
            &&& after.chars_at_refresh == v.chars_at_refresh
            &&& after.state_epoch_s == v.state_epoch_s
            &&& after.in_flight == v.in_flight
        }),
    decreases sayings.len(),
{
    let n = v.lines.len() as int;
    if sayings.len() == 0 {
        assert(v.lines.take(n) =~= v.lines);
    } else {
        let before = all_appended(v, sayings.drop_last());
        let after = all_appended(v, sayings);
        lines_are_kept_in_order(v, sayings.drop_last());
        assert(after.lines.take(n) =~= before.lines.take(n));
        assert forall|i: int| 0 <= i < sayings.len() implies ({
            let l = #[trigger] after.lines[n + i];
            l.speaker == sayings[i].speaker && l.text == sayings[i].said && l.t_s
                == sayings[i].t_s
        }) by {
            if i < sayings.len() - 1 {
                assert(after.lines[n + i] == before.lines[n + i]);
                assert(sayings.drop_last()[i] == sayings[i]);
            }
        }
    }
}

/// A refresh falls due with ten thousand bytes of new transcript, and on a
/// press with twelve hundred where the state is five minutes old.
pub proof fn refreshes_wait_for_enough(v: SessionView, now_epoch_s: u64)
    requires
        v.chars_at_refresh <= v.chars_total,
    ensures
        refresh_due(v) <==> v.chars_total >= v.chars_at_refresh + 10_000,
        is_stale(v, now_epoch_s) <==> now_epoch_s >= v.state_epoch_s + 300 && v.chars_total
            >= v.chars_at_refresh + 1_200,
{
}

/// The clock of a line counts whole seconds from the start of the session.
pub proof fn lines_are_timed_from_the_start(v: SessionView, seconds: nat, rest_ns: nat)
    requires
        rest_ns < 1_000_000_000,
        v.started_ns + 1_000_000_000 * seconds + rest_ns <= u64::MAX,
    ensures
        clock(v, (v.started_ns + 1_000_000_000 * seconds + rest_ns) as u64) == seconds,
{
}

/// A new line leaves something to refresh, and a state that covers every line
/// leaves nothing.
pub proof fn there_is_a_delta_until_it_is_covered(
    v: SessionView,
    s: Saying,
    new_state: Seq<char>,
    now_epoch_s: u64,
)
    requires
        v.covered <= v.lines.len() < u64::MAX,
    ensures
        ({
            let after = appended(v, s.speaker, s.said, s.t_s, s.tokens as int);
            let upto = after.lines.len() as u64;
            let covered = state_committed(after, new_state, upto, now_epoch_s);
            &&& has_delta(after)
            &&& !has_delta(covered)
            &&& covered.state_epoch_s == now_epoch_s
            &&& covered.lines == after.lines
            &&& covered.chars_total == after.chars_total
            &&& covered.chars_at_refresh == after.chars_at_refresh
            &&& covered.in_flight == after.in_flight
        }),
{
}

/// A state that is too long loses only its end: what is kept of it fills the
/// eight thousand bytes but for the room of one character.
pub proof fn long_states_fill_their_room(
    v: SessionView,
    new_state: Seq<char>,
    upto: u64,
    now_epoch_s: u64,
)
    ensures
        ({
            let kept = state_committed(v, new_state, upto, now_epoch_s).state_block;
            &&& text::bytes_in(new_state) <= 8_000 ==> kept == new_state
            &&& text::bytes_in(new_state) > 8_000 ==> 8_000 - 4 < text::bytes_in(kept) <= 8_000
                && text::begins_with(new_state, kept)
        }),
{
    text::byte_head_is_longest(new_state, 8_000);
    let kept = text::byte_head(new_state, 8_000);
    state_stays_small(v, new_state, upto, now_epoch_s);
    if text::bytes_in(new_state) > 8_000 {
        if kept.len() == new_state.len() {
            assert(new_state.take(kept.len() as int) =~= new_state);
        }
        text::bytes_add_up(kept, new_state[kept.len() as int], kept);
    }
}

/// Whatever a session holds, what is said next ends its transcript, in full.
pub proof fn sayings_end_the_transcript(v: SessionView, s: Saying)
    ensures
        ({
            let before = transcript_of(v.lines);
            let after = transcript_of(
                appended(v, s.speaker, s.said, s.t_s, s.tokens as int).lines,
            );
            let own = after.len() - s.said.len();
            &&& own >= 0
            &&& after.skip(own) == s.said
            &&& after.take(before.len() as int) == before
            &&& v.lines.len() > 0 ==> after[before.len() as int] == '\n'
        }),
{
    reveal_strlit("\n");
    let l = LineView { speaker: s.speaker, text: s.said, t_s: s.t_s };
    transcript_ends_with_the_newest_line(v.lines, l);
    let before = transcript_of(v.lines);
    let after = transcript_of(v.lines.push(l));
    assert(after.skip(after.len() - s.said.len()) =~= s.said);
    if v.lines.len() == 0 {
        assert(v.lines =~= seq![]);
    }
    assert(after.take(before.len() as int) =~= before);
}

/// A refresh works on the whole state so far and on everything that was said
/// since it was made, and no more: its new state will cover every line.
pub proof fn refreshes_work_on_what_is_new(
    v: SessionView,
    covered: Seq<LineView>,
    new: Seq<LineView>,
    d: Delta,
)
    requires
        v.lines == covered + new,
        v.covered == covered.len(),
        is_delta(v, d),
    ensures
        d.lines@ == delta_of(new),
        d.prev_state@ == v.state_block,
        d.upto == covered.len() + new.len(),
        d.chars == text::bytes_in(delta_of(new)),
        has_delta(v) <==> new.len() > 0,
{
    assert(v.lines.skip(v.covered as int) =~= new);
}

} // verus!
