//! One turn of a long-lived assistant process that is fed and read as JSON
//! lines, and the life of that process.

use vstd::prelude::*;
use crate::backend;
use crate::json;
use crate::lang::Language;
use crate::text;

verus! {

/// The instructions that the process starts with.
pub const SYSTEM_PROMPT: &'static str = "You are a real-time interview copilot. Answer directly \
and concisely so the user can read your answer out loud. Keep it under 4 sentences \
unless it is a coding question, in which case give the code and explain the approach \
in 1-2 sentences first. Do NOT use any tools or skills — answer purely from your own \
knowledge, immediately.";

/// A turn that takes longer means that the process hangs, in seconds.
pub const TURN_TIMEOUT_S: u64 = 20;

/// What a finished turn gave.
pub struct AskOutcome {
    pub answer: String,
    /// Time to the first token.
    pub ttft_ms: u64,
    pub total_ms: u64,
    /// Tokens read from the prompt cache: more than 0 if it was warm.
    pub cache_read_tokens: u64,
    /// Tokens written to the prompt cache: more than 0 if it was cold.
    pub cache_creation_tokens: u64,
    /// Whether the model reached for a tool, against its instructions.
    pub tool_use: bool,
}

/// `AskOutcome` over plain text.
pub struct AskOutcomeView {
    pub answer: Seq<char>,
    pub ttft_ms: u64,
    pub total_ms: u64,
    pub cache_read_tokens: u64,
    pub cache_creation_tokens: u64,
    pub tool_use: bool,
}

impl View for AskOutcome {
    type V = AskOutcomeView;

    open spec fn view(&self) -> AskOutcomeView {
        AskOutcomeView {
            answer: self.answer@,
            ttft_ms: self.ttft_ms,
            total_ms: self.total_ms,
            cache_read_tokens: self.cache_read_tokens,
            cache_creation_tokens: self.cache_creation_tokens,
            tool_use: self.tool_use,
        }
    }
}

/// The prompt of a question, with the recent transcript around it where there
/// is any.
pub fn build_prompt(question: &str, context: &str) -> (r: String)
    ensures
        r@ == backend::question_prompt(question@, context@, Language::English),
{
    backend::build_user(question, context, Language::English)
}

/// What the process is asked.
pub struct Request {
    pub prompt: String,
    pub trace_id: String,
    /// Whether the answer is shown while it comes.
    pub stream: bool,
}

/// A question for the process. Its answer is shown while it comes.
pub fn ask(question: &str, context: &str, trace_id: &str) -> (r: Request)
    ensures
        r.prompt@ == backend::question_prompt(question@, context@, Language::English),
        r.trace_id@ == trace_id@,
        r.stream,
{
    Request { prompt: build_prompt(question, context), trace_id: trace_id.to_owned(), stream: true }
}

/// What keeps the process warm. Its answer is not shown.
pub fn warmup() -> (r: Request)
    ensures
        r.prompt@ == "Reply with exactly one word: ready"@,
        r.trace_id@ == "warmup"@,
        !r.stream,
{
    Request {
        prompt: "Reply with exactly one word: ready".to_owned(),
        trace_id: "warmup".to_owned(),
        stream: false,
    }
}

/// The line that puts a prompt to the process.
pub open spec fn prompt_line(prompt: Seq<char>) -> Seq<char> {
    r#"{"message":{"content":[{"text":"#@ + json::json_literal(prompt)
        + r#","type":"text"}],"role":"user"},"type":"user"}"#@ + "\n"@
}

pub fn user_line(prompt: &str) -> (r: String)
    ensures
        r@ == prompt_line(prompt@),
{
    let mut out = r#"{"message":{"content":[{"text":"#.to_owned();
    let literal = json::to_json_literal(prompt);
    out.append(literal.as_str());
    out.append(r#","type":"text"}],"role":"user"},"type":"user"}"#);
    out.append("\n");
    out
}

/// What one line of the process says.
pub enum TurnEvent {
    /// Nothing of interest.
    Noise,
    /// The next piece of the answer.
    Delta(String),
    /// The model reached for a tool.
    ToolUse,
    /// The turn is over.
    Finished { answer: Option<String>, cache_read: u64, cache_creation: u64 },
}

/// `TurnEvent` over plain text.
pub enum TurnEventView {
    Noise,
    Delta(Seq<char>),
    ToolUse,
    Finished { answer: Option<Seq<char>>, cache_read: u64, cache_creation: u64 },
}

impl View for TurnEvent {
    type V = TurnEventView;

    open spec fn view(&self) -> TurnEventView {
        match self {
            TurnEvent::Noise => TurnEventView::Noise,
            TurnEvent::Delta(s) => TurnEventView::Delta(s@),
            TurnEvent::ToolUse => TurnEventView::ToolUse,
            TurnEvent::Finished { answer, cache_read, cache_creation } => TurnEventView::Finished {
                answer: match answer {
                    Some(s) => Some(s@),
                    None => None,
                },
                cache_read: *cache_read,
                cache_creation: *cache_creation,
            },
        }
    }
}

/// Where the kind of a message's block stands.
pub open spec fn block_kind_pointer(i: nat) -> Seq<char> {
    "/message/content/"@ + text::decimal(i) + "/type"@
}

/// Whether one of the message's blocks is a tool call.
pub open spec fn calls_tool(line: Seq<char>) -> bool {
    json::json_node(line, "/message/content"@) matches Some(json::JsonView::List(n)) && exists|
        i: nat,
    |
        i < n && json::text_at(line, #[trigger] block_kind_pointer(i)) == Some("tool_use"@)
}

/// What a line says. A line that is no JSON says nothing.
pub open spec fn turn_event(raw: Seq<char>) -> TurnEventView {
    let line = text::trimmed(raw);
    let kind = json::text_at(line, "/type"@);
    if kind == Some("stream_event"@) {
        if json::text_at(line, "/event/type"@) == Some("content_block_delta"@) {
            match json::text_at(line, "/event/delta/text"@) {
                Some(piece) => TurnEventView::Delta(piece),
                None => TurnEventView::Noise,
            }
        } else {
            TurnEventView::Noise
        }
    } else if kind == Some("assistant"@) {
        if calls_tool(line) {
            TurnEventView::ToolUse
        } else {
            TurnEventView::Noise
        }
    } else if kind == Some("result"@) {
        TurnEventView::Finished {
            answer: json::text_at(line, "/result"@),
            cache_read: json::count_at(line, "/usage/cache_read_input_tokens"@),
            cache_creation: json::count_at(line, "/usage/cache_creation_input_tokens"@),
        }
    } else {
        TurnEventView::Noise
    }
}

fn text_is(document: &str, pointer: &str, wanted: &str) -> (r: bool)
    ensures
        r == (json::text_at(document@, pointer@) == Some(wanted@)),
{
    match json::json_text(document, pointer) {
        Some(found) => text::same(found.as_str(), wanted),
        None => false,
    }
}

fn has_tool_call(line: &str) -> (r: bool)
    ensures
        r == calls_tool(line@),
{
    let count: usize = match json::json_at(line, "/message/content") {
        Some(json::JsonNode::List(n)) => n,
        _ => return false,
    };
    let mut i: usize = 0;
    while i < count
        invariant
            i <= count,
            json::json_node(line@, "/message/content"@) == Some(
                json::JsonView::List(count as nat),
            ),
            forall|j: nat|
                j < i ==> json::text_at(line@, #[trigger] block_kind_pointer(j)) != Some(
                    "tool_use"@,
                ),
        decreases count - i,
    {
        let mut pointer = "/message/content/".to_owned();
        text::push_decimal(&mut pointer, i as u64);
        pointer.append("/type");
        assert(pointer@ =~= block_kind_pointer(i as nat));
        if text_is(line, pointer.as_str(), "tool_use") {
            return true;
        }
        i += 1;
    }
    false
}

/// Reads one line of the process.
pub fn read_turn_event(raw: &str) -> (r: TurnEvent)
    ensures
        r@ == turn_event(raw@),
{
    let line = text::trim(raw);
    if text_is(line, "/type", "stream_event") {
        if text_is(line, "/event/type", "content_block_delta") {
            match json::json_text(line, "/event/delta/text") {
                Some(piece) => TurnEvent::Delta(piece),
                None => TurnEvent::Noise,
            }
        } else {
            TurnEvent::Noise
        }
    } else if text_is(line, "/type", "assistant") {
        if has_tool_call(line) {
            TurnEvent::ToolUse
        } else {
            TurnEvent::Noise
        }
    } else if text_is(line, "/type", "result") {
        TurnEvent::Finished {
            answer: json::json_text(line, "/result"),
            cache_read: json::json_count(line, "/usage/cache_read_input_tokens"),
            cache_creation: json::json_count(line, "/usage/cache_creation_input_tokens"),
        }
    } else {
        TurnEvent::Noise
    }
}

/// What has been read of a turn.
#[verifier::ext_equal]
pub struct TurnView {
    /// The answer so far.
    pub text: Seq<char>,
    /// When its first piece came, or 0.
    pub ttft_ms: u64,
    pub tool_use: bool,
}

/// An event other than the last is taken in at `now_ms`.
pub open spec fn turn_applied(v: TurnView, e: TurnEventView, now_ms: u64) -> TurnView {
    match e {
        TurnEventView::Delta(piece) => TurnView {
            text: v.text + piece,
            ttft_ms: if v.ttft_ms == 0 {
                now_ms
            } else {
                v.ttft_ms
            },
            ..v
        },
        TurnEventView::ToolUse => TurnView { tool_use: true, ..v },
        _ => v,
    }
}

/// What the turn gave, once its last event came at `now_ms`: the text that it
/// carries, or what was streamed where it carries none.
pub open spec fn turn_outcome(v: TurnView, e: TurnEventView, now_ms: u64) -> Option<
    AskOutcomeView,
> {
    match e {
        TurnEventView::Finished { answer, cache_read, cache_creation } => Some(
            AskOutcomeView {
                answer: text::trimmed(
                    match answer {
                        Some(s) => s,
                        None => v.text,
                    },
                ),
                ttft_ms: if v.ttft_ms == 0 {
                    now_ms
                } else {
                    v.ttft_ms
                },
                total_ms: now_ms,
                cache_read_tokens: cache_read,
                cache_creation_tokens: cache_creation,
                tool_use: v.tool_use,
            },
        ),
        _ => None,
    }
}

/// What to do after a line.
pub enum TurnStep {
    /// Read on.
    Continue,
    /// Show this piece, where the turn is streamed, and read on.
    Show(String),
    /// The turn is over.
    Done(AskOutcome),
}

/// The state of one turn.
pub struct Turn {
    text: String,
    ttft_ms: u64,
    tool_use: bool,
}

impl View for Turn {
    type V = TurnView;

    closed spec fn view(&self) -> TurnView {
        TurnView { text: self.text@, ttft_ms: self.ttft_ms, tool_use: self.tool_use }
    }
}

impl Turn {
    pub fn new() -> (r: Self)
        ensures
            r@ == (TurnView { text: seq![], ttft_ms: 0, tool_use: false }),
    {
        let r = Turn { text: String::new(), ttft_ms: 0, tool_use: false };
        assert(r@.text =~= seq![]);
        r
    }

    /// Takes in an event at `now_ms`, counted from when the prompt was sent.
    /// Pieces are shown only where the turn is `streamed`.
    pub fn apply(&mut self, event: TurnEvent, now_ms: u64, streamed: bool) -> (r: TurnStep)
        ensures
            final(self)@ == turn_applied(old(self)@, event@, now_ms),
            match r {
                TurnStep::Continue => turn_outcome(old(self)@, event@, now_ms) is None && !(
                event is Delta && streamed),
                TurnStep::Show(piece) => streamed && event@ == TurnEventView::Delta(piece@),
                TurnStep::Done(outcome) => turn_outcome(old(self)@, event@, now_ms) == Some(
                    outcome@,
                ),
            },
    {
        match event {
            TurnEvent::Noise => TurnStep::Continue,
            TurnEvent::Delta(piece) => {
                if self.ttft_ms == 0 {
                    self.ttft_ms = now_ms;
                }
                self.text.append(piece.as_str());
                if streamed {
                    TurnStep::Show(piece)
                } else {
                    TurnStep::Continue
                }
            },
            TurnEvent::ToolUse => {
                self.tool_use = true;
                TurnStep::Continue
            },
            TurnEvent::Finished { answer, cache_read, cache_creation } => {
                let full = match answer {
                    Some(s) => text::trim(s.as_str()).to_owned(),
                    None => text::trim(self.text.as_str()).to_owned(),
                };
                TurnStep::Done(
                    AskOutcome {
                        answer: full,
                        ttft_ms: if self.ttft_ms == 0 {
                            now_ms
                        } else {
                            self.ttft_ms
                        },
                        total_ms: now_ms,
                        cache_read_tokens: cache_read,
                        cache_creation_tokens: cache_creation,
                        tool_use: self.tool_use,
                    },
                )
            },
        }
    }

    /// Takes in a line of the process at `now_ms`.
    pub fn read_line(&mut self, raw: &str, now_ms: u64, streamed: bool) -> (r: TurnStep)
        ensures
            final(self)@ == turn_applied(old(self)@, turn_event(raw@), now_ms),
            match r {
                TurnStep::Continue => turn_outcome(old(self)@, turn_event(raw@), now_ms) is None
                    && !(turn_event(raw@) is Delta && streamed),
                TurnStep::Show(piece) => streamed && turn_event(raw@) == TurnEventView::Delta(
                    piece@,
                ),
                TurnStep::Done(outcome) => turn_outcome(old(self)@, turn_event(raw@), now_ms)
                    == Some(outcome@),
            },
    {
        let event = read_turn_event(raw);
        self.apply(event, now_ms, streamed)
    }
}

// ── The life of the process ────────────────────────────────────────────────

/// How a turn ended.
pub enum TurnEnd {
    Answered,
    Failed(String),
    TimedOut,
}

/// Whether the process is there. It is started when a request needs it, and
/// dropped after a turn that failed.
pub struct SessionManager {
    alive: bool,
}

impl SessionManager {
    /// Whether a process is running.
    pub closed spec fn is_alive(self) -> bool {
        self.alive
    }

    pub fn new() -> (r: Self)
        ensures
            !r.is_alive(),
    {
        SessionManager { alive: false }
    }

    /// Whether a request has to start the process first.
    pub fn needs_spawn(&self) -> (r: bool)
        ensures
            r == !self.is_alive(),
    {
        !self.alive
    }

    /// The process was started, or could not be.
    pub fn spawned(&mut self, ok: bool)
        requires
            !old(self).is_alive(),
        ensures
            final(self).is_alive() == ok,
    {
        self.alive = ok;
    }

    /// A turn of `program` ended: the error to reply with, if it failed. A
    /// process that failed or hung is dropped, so the next request starts a
    /// new one.
    pub fn turn_ended(&mut self, end: TurnEnd, program: &str) -> (r: Option<String>)
        requires
            old(self).is_alive(),
        ensures
            match end {
                TurnEnd::Answered => r is None && final(self).is_alive(),
                TurnEnd::Failed(e) => r is Some && r->0@ == e@ && !final(self).is_alive(),
                TurnEnd::TimedOut => r is Some && r->0@ == program@ + " turn timed out"@
                    && !final(self).is_alive(),
            },
    {
        match end {
            TurnEnd::Answered => None,
            TurnEnd::Failed(e) => {
                self.alive = false;
                Some(e)
            },
            TurnEnd::TimedOut => {
                self.alive = false;
                let mut message = program.to_owned();
                message.append(" turn timed out");
                Some(message)
            },
        }
    }
}

/// A tool call is never forgotten: once seen, it marks the turn's outcome
/// whatever follows.
pub proof fn tool_use_sticks(v: TurnView, e: TurnEventView, last: TurnEventView, now_ms: u64)
    requires
        v.tool_use || e is ToolUse,
    ensures
        turn_applied(v, e, now_ms).tool_use,
        turn_outcome(turn_applied(v, e, now_ms), last, now_ms) matches Some(outcome)
            ==> outcome.tool_use,
{
}

/// An event of a turn, and when it came.
pub struct TimedEvent {
    pub event: TurnEventView,
    pub at_ms: u64,
}

/// What has been read of a turn after these events.
pub open spec fn turn_after(v: TurnView, events: Seq<TimedEvent>) -> TurnView
    decreases events.len(),
{
    if events.len() == 0 {
        v
    } else {
        turn_applied(
            turn_after(v, events.drop_last()),
            events.last().event,
            events.last().at_ms,
        )
    }
}

/// The pieces among some events, put together.
pub open spec fn pieces_of(events: Seq<TimedEvent>) -> Seq<char>
    decreases events.len(),
{
    if events.len() == 0 {
        seq![]
    } else {
        pieces_of(events.drop_last()) + (match events.last().event {
            TurnEventView::Delta(piece) => piece,
            _ => seq![],
        })
    }
}

/// A turn's text is every piece that came, in order and whole; a tool call is
/// noted exactly where one came.
pub proof fn turns_keep_every_piece(v: TurnView, events: Seq<TimedEvent>)
    ensures
        turn_after(v, events).text == v.text + pieces_of(events),
        turn_after(v, events).tool_use <==> v.tool_use || exists|i: int|
            0 <= i < events.len() && (#[trigger] events[i]).event is ToolUse,
    decreases events.len(),
{
    if events.len() == 0 {
        assert(v.text + pieces_of(events) =~= v.text);
    } else {
        let before = events.drop_last();
        turns_keep_every_piece(v, before);
        assert(turn_after(v, events).text =~= v.text + pieces_of(events));
        if turn_after(v, before).tool_use && !v.tool_use {
            let i = choose|i: int| 0 <= i < before.len() && (#[trigger] before[i]).event is ToolUse;
            assert(events[i].event is ToolUse);
        }
        if events.last().event is ToolUse {
            assert(events[events.len() - 1].event is ToolUse);
        }
        if exists|i: int| 0 <= i < events.len() && (#[trigger] events[i]).event is ToolUse {
            let i = choose|i: int| 0 <= i < events.len() && (#[trigger] events[i]).event is ToolUse;
            if i < events.len() - 1 {
                assert(before[i].event is ToolUse);
            }
        }
    }
}

/// The first piece is the one that is timed.
pub proof fn first_piece_is_timed(v: TurnView, e: TurnEventView, now_ms: u64)
    ensures
        v.ttft_ms > 0 ==> turn_applied(v, e, now_ms).ttft_ms == v.ttft_ms,
        v.ttft_ms == 0 && e is Delta ==> turn_applied(v, e, now_ms).ttft_ms == now_ms,
        !(e is Delta) ==> turn_applied(v, e, now_ms).ttft_ms == v.ttft_ms,
{
}

/// A turn ends with its last event alone, and gives all of the text that this
/// event carries, or all that was streamed where it carries none, without the
/// white space around it.
pub proof fn answers_are_given_whole(
    v: TurnView,
    before: Seq<char>,
    answer: Seq<char>,
    after: Seq<char>,
    cache_read: u64,
    cache_creation: u64,
    now_ms: u64,
)
    requires
        forall|i: int| 0 <= i < before.len() ==> text::white_space(#[trigger] before[i]),
        forall|i: int| 0 <= i < after.len() ==> text::white_space(#[trigger] after[i]),
        answer.len() > 0 ==> !text::white_space(answer[0]) && !text::white_space(answer.last()),
    ensures
        ({
            let given = TurnEventView::Finished {
                answer: Some(before + answer + after),
                cache_read,
                cache_creation,
            };
            let bare = TurnEventView::Finished { answer: None, cache_read, cache_creation };
            let outcome = AskOutcomeView {
                answer,
                ttft_ms: if v.ttft_ms > 0 {
                    v.ttft_ms
                } else {
                    now_ms
                },
                total_ms: now_ms,
                cache_read_tokens: cache_read,
                cache_creation_tokens: cache_creation,
                tool_use: v.tool_use,
            };
            &&& turn_outcome(v, given, now_ms) == Some(outcome)
            &&& v.text == before + answer + after ==> turn_outcome(v, bare, now_ms) == Some(outcome)
            &&& turn_outcome(v, TurnEventView::Delta(answer), now_ms) is None
            &&& turn_outcome(v, TurnEventView::ToolUse, now_ms) is None
            &&& turn_outcome(v, TurnEventView::Noise, now_ms) is None
        }),
{
    text::trimmed_is_what_stands_between(before, answer, after);
}

/// A line is read by what stands in it: a piece of the answer as it is, white
/// space and all, a tool call wherever among the blocks it stands, and the end
/// of the turn with its text.
pub proof fn lines_are_read_as_they_are(
    before: Seq<char>,
    line: Seq<char>,
    after: Seq<char>,
    piece: Seq<char>,
    blocks: nat,
    i: nat,
)
    requires
        forall|i: int| 0 <= i < before.len() ==> text::white_space(#[trigger] before[i]),
        forall|i: int| 0 <= i < after.len() ==> text::white_space(#[trigger] after[i]),
        line.len() > 0,
        !text::white_space(line[0]) && !text::white_space(line.last()),
    ensures
        ({
            let raw = before + line + after;
            let kind = json::json_node(line, "/type"@);
            let inner = json::json_node(line, "/event/type"@);
            let says = |node: Option<json::JsonView>, s: Seq<char>|
                node == Some(json::JsonView::Text(s));
            &&& says(kind, "stream_event"@) && says(inner, "content_block_delta"@) && says(
                json::json_node(line, "/event/delta/text"@),
                piece,
            ) ==> turn_event(raw) == TurnEventView::Delta(piece)
            &&& says(kind, "assistant"@) && json::json_node(line, "/message/content"@) == Some(
                json::JsonView::List(blocks),
            ) && i < blocks && says(
                json::json_node(line, "/message/content/"@ + text::decimal(i) + "/type"@),
                "tool_use"@,
            ) ==> turn_event(raw) == TurnEventView::ToolUse
            &&& says(kind, "result"@) && says(json::json_node(line, "/result"@), piece) ==> (turn_event(
                raw,
            ) matches TurnEventView::Finished { answer, .. } && answer == Some(piece))
            &&& !says(kind, "stream_event"@) && !says(kind, "assistant"@) && !says(kind, "result"@)
                ==> turn_event(raw) == TurnEventView::Noise
        }),
{
    reveal_strlit("stream_event");
    reveal_strlit("assistant");
    reveal_strlit("result");
    assert("stream_event"@.len() == 12 && "assistant"@.len() == 9 && "result"@.len() == 6);
    text::trimmed_is_what_stands_between(before, line, after);
    assert(block_kind_pointer(i) == "/message/content/"@ + text::decimal(i) + "/type"@);
    let raw = before + line + after;
    let kind = json::json_node(line, "/type"@);
    if kind == Some(json::JsonView::Text("assistant"@)) && json::json_node(
        line,
        "/message/content"@,
    ) == Some(json::JsonView::List(blocks)) && i < blocks && json::json_node(
        line,
        block_kind_pointer(i),
    ) == Some(json::JsonView::Text("tool_use"@)) {
        assert(json::text_at(line, block_kind_pointer(i)) == Some("tool_use"@));
        assert(calls_tool(line));
    }
}

/// The end of a turn tells what it read from the cache and what it wrote to it.
pub proof fn cache_counts_are_read_by_name(line: Seq<char>, read: u64, creation: u64)
    requires
        line.len() > 0,
        !text::white_space(line[0]) && !text::white_space(line.last()),
        json::json_node(line, "/type"@) == Some(json::JsonView::Text("result"@)),
        json::json_node(line, "/usage/cache_read_input_tokens"@) == Some(
            json::JsonView::Unsigned(read),
        ),
        json::json_node(line, "/usage/cache_creation_input_tokens"@) == Some(
            json::JsonView::Unsigned(creation),
        ),
    ensures
        turn_event(line) matches TurnEventView::Finished { cache_read, cache_creation, .. }
            && cache_read == read && cache_creation == creation,
{
    reveal_strlit("stream_event");
    reveal_strlit("assistant");
    reveal_strlit("result");
    assert("stream_event"@.len() == 12 && "assistant"@.len() == 9 && "result"@.len() == 6);
    let none = Seq::<char>::empty();
    text::trimmed_is_what_stands_between(none, line, none);
    assert(none + line + none =~= line);
}

/// A prompt is put to the process whole, on a line of its own.
pub proof fn prompts_are_put_whole(prompt: Seq<char>)
    ensures
        text::occurs(prompt_line(prompt), json::json_literal(prompt)),
        prompt_line(prompt).last() == '\n',
{
    reveal_strlit("\n");
    let lead = r#"{"message":{"content":[{"text":"#@;
    let literal = json::json_literal(prompt);
    let trail = r#","type":"text"}],"role":"user"},"type":"user"}"#@ + "\n"@;
    assert(prompt_line(prompt) =~= lead + literal + trail);
    text::parts_occur(lead, literal, trail);
}

} // verus!
