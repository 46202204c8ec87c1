//! Reads the event stream of a chat completion.
//!
//! The stream arrives in chunks of bytes. Each line that starts with `data:`
//! carries a JSON event with the next piece of the answer or the token usage;
//! `[DONE]` ends it. Before the first piece a failure is an error, so that the
//! caller can try elsewhere; after it the answer so far is kept.

use vstd::prelude::*;
use crate::json;
use crate::text;

verus! {

/// Token accounting of a request. `cached` is the part of `prompt` that came
/// out of the provider's cache.
#[derive(Clone, Copy, Debug, PartialEq, Eq, Structural)]
pub struct TokenUsage {
    pub prompt: u64,
    pub cached: u64,
    pub completion: u64,
}

impl Default for TokenUsage {
    fn default() -> (r: Self)
        ensures
            r == (TokenUsage { prompt: 0, cached: 0, completion: 0 }),
    {
        TokenUsage { prompt: 0, cached: 0, completion: 0 }
    }
}

/// What one event of the stream says.
pub struct SseEvent {
    /// The token usage, where the event carries it.
    pub usage: Option<TokenUsage>,
    /// The next piece of the answer.
    pub delta: Option<String>,
}

/// `SseEvent` over plain text.
pub struct SseEventView {
    pub usage: Option<TokenUsage>,
    pub delta: Option<Seq<char>>,
}

impl View for SseEvent {
    type V = SseEventView;

    open spec fn view(&self) -> SseEventView {
        SseEventView {
            usage: self.usage,
            delta: match self.delta {
                Some(s) => Some(s@),
                None => None,
            },
        }
    }
}

/// What the JSON after `data:` says. Text that is no JSON says nothing.
pub open spec fn event_of(data: Seq<char>) -> SseEventView {
    SseEventView {
        usage: if json::json_node(data, "/usage"@) == Some(json::JsonView::Object) {
            Some(
                TokenUsage {
                    prompt: json::count_at(data, "/usage/prompt_tokens"@),
                    cached: json::count_at(data, "/usage/prompt_tokens_details/cached_tokens"@),
                    completion: json::count_at(data, "/usage/completion_tokens"@),
                },
            )
        } else {
            None
        },
        delta: json::text_at(data, "/choices/0/delta/content"@),
    }
}

/// Reads the JSON after `data:`.
pub fn read_event(data: &str) -> (r: SseEvent)
    ensures
        r@ == event_of(data@),
{
    let usage = match json::json_at(data, "/usage") {
        Some(json::JsonNode::Object) => Some(
            TokenUsage {
                prompt: json::json_count(data, "/usage/prompt_tokens"),
                cached: json::json_count(data, "/usage/prompt_tokens_details/cached_tokens"),
                completion: json::json_count(data, "/usage/completion_tokens"),
            },
        ),
        _ => None,
    };
    SseEvent { usage, delta: json::json_text(data, "/choices/0/delta/content") }
}

/// What has been read of a stream.
#[verifier::ext_equal]
pub struct SseView {
    /// Text after the last whole line.
    pub buf: Seq<char>,
    /// The answer so far.
    pub text: Seq<char>,
    /// When the first piece of it came.
    pub ttft_ms: u64,
    /// Whether any piece came.
    pub got_first: bool,
    pub usage: TokenUsage,
}

/// An event is taken in at `now_ms`. An empty piece counts for nothing.
pub open spec fn applied(v: SseView, e: SseEventView, now_ms: u64) -> SseView {
    let v = match e.usage {
        Some(usage) => SseView { usage, ..v },
        None => v,
    };
    match e.delta {
        Some(piece) if piece.len() > 0 => SseView {
            text: v.text + piece,
            got_first: true,
            ttft_ms: if v.got_first {
                v.ttft_ms
            } else {
                now_ms
            },
            ..v
        },
        _ => v,
    }
}

/// The piece that an event shows.
pub open spec fn shown(e: SseEventView) -> Seq<Seq<char>> {
    match e.delta {
        Some(piece) if piece.len() > 0 => seq![piece],
        _ => seq![],
    }
}

/// What stands after `data:` in a line, if it is such a line.
pub open spec fn line_data(line: Seq<char>) -> Option<Seq<char>> {
    let t = text::trimmed(line);
    if text::begins_with(t, "data:"@) {
        Some(text::trimmed(t.skip("data:"@.len() as int)))
    } else {
        None
    }
}

/// Takes every whole line off the buffer, up to the end mark: what has been
/// read then, the pieces that were shown, and whether the end mark came.
pub open spec fn drained(v: SseView, now_ms: u64) -> (SseView, Seq<Seq<char>>, bool)
    decreases v.buf.len(),
{
    proof {
        text::line_feed_at_is_first(v.buf);
    }
    let nl = text::line_feed_at(v.buf);
    if nl >= v.buf.len() {
        (v, seq![], false)
    } else {
        let rest = SseView { buf: v.buf.skip(nl + 1), ..v };
        match line_data(v.buf.take(nl + 1)) {
            None => drained(rest, now_ms),
            Some(data) => if data == "[DONE]"@ {
                (rest, seq![], true)
            } else {
                let e = event_of(data);
                let next = SseView { buf: rest.buf, ..applied(rest, e, now_ms) };
                let (last, pieces, done) = drained(next, now_ms);
                (last, shown(e) + pieces, done)
            },
        }
    }
}

/// A chunk of the stream comes in at `now_ms`.
pub open spec fn fed(v: SseView, chunk: Seq<char>, now_ms: u64) -> (SseView, Seq<Seq<char>>, bool) {
    drained(SseView { buf: v.buf + chunk, ..v }, now_ms)
}

/// What a chunk brought.
pub struct SseRead {
    /// The pieces to show, in order.
    pub deltas: Vec<String>,
    /// Whether the stream is at its end.
    pub done: bool,
}

/// A finished answer.
pub struct SseOutcome {
    pub text: String,
    pub ttft_ms: u64,
    pub total_ms: u64,
    pub usage: TokenUsage,
}

/// `SseOutcome` over plain text.
pub struct SseOutcomeView {
    pub text: Seq<char>,
    pub ttft_ms: u64,
    pub total_ms: u64,
    pub usage: TokenUsage,
}

impl View for SseOutcome {
    type V = SseOutcomeView;

    open spec fn view(&self) -> SseOutcomeView {
        SseOutcomeView {
            text: self.text@,
            ttft_ms: self.ttft_ms,
            total_ms: self.total_ms,
            usage: self.usage,
        }
    }
}

/// How a stream ended without its end mark.
pub enum StreamEnd {
    /// The connection closed.
    Closed,
    /// The connection failed.
    Failed(String),
    /// Nothing came for too long.
    TimedOut,
}

/// The longest wait between chunks once the answer has begun, in seconds.
pub const STREAM_IDLE_TIMEOUT_S: u64 = 10;

/// The answer at the end mark. One that came all at once is timed as a whole.
pub open spec fn outcome_at_mark(v: SseView, now_ms: u64) -> SseOutcomeView {
    SseOutcomeView {
        text: text::trimmed(v.text),
        ttft_ms: if v.ttft_ms == 0 {
            now_ms
        } else {
            v.ttft_ms
        },
        total_ms: now_ms,
        usage: v.usage,
    }
}

/// The answer, or the error, once the end mark came: a mark before the first
/// piece is an end before it like any other.
pub open spec fn result_at_mark(v: SseView, now_ms: u64) -> Result<SseOutcomeView, Seq<char>> {
    if v.got_first {
        Ok(outcome_at_mark(v, now_ms))
    } else {
        Err("stream produced no content"@)
    }
}

/// The answer, or the error, where a stream ended without its end mark.
pub open spec fn outcome_at_end(
    v: SseView,
    end: StreamEnd,
    budget_s: u64,
    now_ms: u64,
) -> Result<SseOutcomeView, Seq<char>> {
    if v.got_first {
        Ok(
            SseOutcomeView {
                text: text::trimmed(v.text),
                ttft_ms: v.ttft_ms,
                total_ms: now_ms,
                usage: v.usage,
            },
        )
    } else {
        Err(
            match end {
                StreamEnd::Closed => "stream produced no content"@,
                StreamEnd::Failed(e) => "stream error before first token: "@ + e@,
                StreamEnd::TimedOut => "no first token within "@ + text::decimal(budget_s as nat)
                    + "s"@,
            },
        )
    }
}

/// Reads one stream.
pub struct SseReader {
    buf: String,
    text: String,
    ttft_ms: u64,
    got_first: bool,
    usage: TokenUsage,
}

impl View for SseReader {
    type V = SseView;

    closed spec fn view(&self) -> SseView {
        SseView {
            buf: self.buf@,
            text: self.text@,
            ttft_ms: self.ttft_ms,
            got_first: self.got_first,
            usage: self.usage,
        }
    }
}

impl SseReader {
    pub fn new() -> (r: Self)
        ensures
            r@ == (SseView {
                buf: seq![],
                text: seq![],
                ttft_ms: 0,
                got_first: false,
                usage: TokenUsage { prompt: 0, cached: 0, completion: 0 },
            }),
    {
        let r = SseReader {
            buf: String::new(),
            text: String::new(),
            ttft_ms: 0,
            got_first: false,
            usage: TokenUsage { prompt: 0, cached: 0, completion: 0 },
        };
        assert(r@.buf =~= seq![]);
        assert(r@.text =~= seq![]);
        r
    }

    /// How long to wait for the next chunk, in seconds: `budget_s` for the
    /// first piece of the answer, less once it has begun.
    pub fn patience_s(&self, budget_s: u64) -> (r: u64)
        ensures
            r == (if self@.got_first {
                STREAM_IDLE_TIMEOUT_S
            } else {
                budget_s
            }),
    {
        if self.got_first {
            STREAM_IDLE_TIMEOUT_S
        } else {
            budget_s
        }
    }

    /// Takes in one event at `now_ms` and gives the piece to show.
    pub fn apply(&mut self, event: SseEvent, now_ms: u64) -> (r: Option<String>)
        ensures
            final(self)@ == applied(old(self)@, event@, now_ms),
            (match r {
                Some(piece) => seq![piece@],
                None => seq![],
            }) == shown(event@),
    {
        if let Some(usage) = event.usage {
            self.usage = usage;
        }
        match event.delta {
            Some(piece) => {
                if piece.as_str().unicode_len() == 0 {
                    return None;
                }
                if !self.got_first {
                    self.got_first = true;
                    self.ttft_ms = now_ms;
                }
                self.text.append(piece.as_str());
                Some(piece)
            },
            None => None,
        }
    }

    /// Takes in a chunk of the stream at `now_ms`.
    pub fn feed(&mut self, chunk: &[u8], now_ms: u64) -> (r: SseRead)
        ensures
            (final(self)@, text::views(r.deltas@), r.done) == fed(
                old(self)@,
                text::lossy_text(chunk@),
                now_ms,
            ),
    {
        let more = text::from_utf8_lossy(chunk);
        self.buf.append(more.as_str());
        let all = self.buf.clone();
        let cs = text::chars_of(all.as_str());
        let ghost target = drained(self@, now_ms);
        let mut deltas: Vec<String> = Vec::new();
        let mut from: usize = 0;
        assert(cs@.skip(0) =~= cs@);
        assert(text::views(deltas@) + target.1 =~= target.1);
        loop
            invariant
                from <= cs@.len(),
                cs@ == all@,
                ({
                    let rest = drained(SseView { buf: cs@.skip(from as int), ..self@ }, now_ms);
                    &&& rest.0 == target.0
                    &&& text::views(deltas@) + rest.1 == target.1
                    &&& rest.2 == target.2
                }),
                target == fed(old(self)@, text::lossy_text(chunk@), now_ms),
            decreases cs@.len() - from,
        {
            let ghost here = SseView { buf: cs@.skip(from as int), ..self@ };
            let nl: usize = text::find_line_feed(&cs, from);
            if nl >= cs.len() {
                self.buf = all.as_str().substring_char(from, cs.len()).to_owned();
                assert(self.buf@ =~= here.buf);
                assert(self@ =~= here);
                assert(text::views(deltas@) =~= target.1);
                return SseRead { deltas, done: false };
            }
            let line = text::trim(all.as_str().substring_char(from, nl + 1));
            proof {
                assert(here.buf.take(nl - from + 1) =~= all@.subrange(from as int, nl + 1));
                assert(here.buf.skip(nl - from + 1) =~= cs@.skip(nl + 1));
            }
            from = nl + 1;
            if let Some(data) = text::strip_prefix(line, "data:") {
                let data = text::trim(data);
                if text::same(data, "[DONE]") {
                    self.buf = all.as_str().substring_char(from, cs.len()).to_owned();
                    assert(self.buf@ =~= cs@.skip(from as int));
                    assert(self@ =~= target.0);
                    assert(text::views(deltas@) =~= target.1);
                    return SseRead { deltas, done: true };
                }
                let event = read_event(data);
                let ghost so_far = text::views(deltas@);
                let ghost before = self@;
                let piece = self.apply(event, now_ms);
                assert(SseView {
                    buf: cs@.skip(from as int),
                    ..applied(SseView { buf: cs@.skip(from as int), ..before }, event@, now_ms)
                } =~= SseView { buf: cs@.skip(from as int), ..self@ });
                if let Some(piece) = piece {
                    deltas.push(piece);
                    assert(text::views(deltas@) =~= so_far + shown(event@));
                } else {
                    assert(text::views(deltas@) =~= so_far + shown(event@));
                }
                proof {
                    let rest = drained(SseView { buf: cs@.skip(from as int), ..self@ }, now_ms);
                    assert(text::views(deltas@) + rest.1 =~= so_far + (shown(event@) + rest.1));
                }
            }
        }
    }

    /// The answer once the end mark came, or an error where it came before the
    /// first piece: someone else can be asked then.
    pub fn finish(&self, now_ms: u64) -> (r: Result<SseOutcome, String>)
        ensures
            match (r, result_at_mark(self@, now_ms)) {
                (Ok(got), Ok(want)) => got@ == want,
                (Err(got), Err(want)) => got@ == want,
                _ => false,
            },
    {
        if !self.got_first {
            return Err("stream produced no content".to_owned());
        }
        Ok(
            SseOutcome {
                text: text::trim(self.text.as_str()).to_owned(),
                ttft_ms: if self.ttft_ms == 0 {
                    now_ms
                } else {
                    self.ttft_ms
                },
                total_ms: now_ms,
                usage: self.usage,
            },
        )
    }

    /// The answer where the stream ended without its end mark: what came of
    /// it, or why nothing did.
    pub fn ended(&self, end: StreamEnd, budget_s: u64, now_ms: u64) -> (r: Result<
        SseOutcome,
        String,
    >)
        ensures
            match (r, outcome_at_end(self@, end, budget_s, now_ms)) {
                (Ok(got), Ok(want)) => got@ == want,
                (Err(got), Err(want)) => got@ == want,
                _ => false,
            },
    {
        if self.got_first {
            return Ok(
                SseOutcome {
                    text: text::trim(self.text.as_str()).to_owned(),
                    ttft_ms: self.ttft_ms,
                    total_ms: now_ms,
                    usage: self.usage,
                },
            );
        }
        match end {
            StreamEnd::Closed => Err("stream produced no content".to_owned()),
            StreamEnd::Failed(e) => {
                let mut message = "stream error before first token: ".to_owned();
                message.append(e.as_str());
                Err(message)
            },
            StreamEnd::TimedOut => {
                let mut message = "no first token within ".to_owned();
                text::push_decimal(&mut message, budget_s);
                message.append("s");
                Err(message)
            },
        }
    }
}

/// A time that passed, in whole milliseconds, as far as it fits.
pub fn elapsed_ms(ms: u128) -> (r: u64)
    ensures
        r == (if ms <= u64::MAX {
            ms as int
        } else {
            u64::MAX as int
        }),
{
    if ms <= u64::MAX as u128 {
        ms as u64
    } else {
        u64::MAX
    }
}

/// The error for a request that the server refused: its status and the start of
/// what it said.
pub open spec fn refused(status: Seq<char>, body: Seq<char>, limit: nat) -> Seq<char> {
    "HTTP "@ + status + ": "@ + text::head(body, limit)
}

pub fn http_error(status: &str, body: &str, limit: usize) -> (r: String)
    ensures
        r@ == refused(status@, body@, limit as nat),
{
    let mut message = "HTTP ".to_owned();
    message.append(status);
    message.append(": ");
    message.append(text::take_chars(body, limit));
    message
}

/// Pieces put together.
pub open spec fn pieced(pieces: Seq<Seq<char>>) -> Seq<char>
    decreases pieces.len(),
{
    if pieces.len() == 0 {
        seq![]
    } else {
        pieces[0] + pieced(pieces.drop_first())
    }
}

/// What the user saw stream in is what the answer holds: a chunk adds exactly
/// the pieces that it showed, and the answer has begun once one was.
pub proof fn answer_is_what_was_shown(v: SseView, now_ms: u64)
    ensures
        drained(v, now_ms).0.text == v.text + pieced(drained(v, now_ms).1),
        drained(v, now_ms).0.got_first <==> v.got_first || drained(v, now_ms).1.len() > 0,
    decreases v.buf.len(),
{
    text::line_feed_at_is_first(v.buf);
    let nl = text::line_feed_at(v.buf);
    let (last, pieces, done) = drained(v, now_ms);
    if nl >= v.buf.len() {
        assert(v.text + pieced(pieces) =~= v.text);
    } else {
        let rest = SseView { buf: v.buf.skip(nl + 1), ..v };
        match line_data(v.buf.take(nl + 1)) {
            None => answer_is_what_was_shown(rest, now_ms),
            Some(data) => if data == "[DONE]"@ {
                assert(v.text + pieced(pieces) =~= v.text);
            } else {
                let e = event_of(data);
                let next = SseView { buf: rest.buf, ..applied(rest, e, now_ms) };
                answer_is_what_was_shown(next, now_ms);
                let later = drained(next, now_ms).1;
                if shown(e).len() > 0 {
                    assert((shown(e) + later).drop_first() =~= later);
                    assert(last.text =~= v.text + pieced(pieces));
                } else {
                    assert(shown(e) + later =~= later);
                }
            },
        }
    }
}

/// It does not matter where the network cuts the text into chunks: fed in two
/// parts, at the same time, a stream reads as it does fed at once.
pub proof fn chunking_does_not_matter(v: SseView, first: Seq<char>, second: Seq<char>, now_ms: u64)
    requires
        !fed(v, first, now_ms).2,
    ensures
        ({
            let (mid, pieces1, _) = fed(v, first, now_ms);
            let (end, pieces2, done) = fed(mid, second, now_ms);
            fed(v, first + second, now_ms) == (end, pieces1 + pieces2, done)
        }),
{
    let whole = SseView { buf: v.buf + first, ..v };
    assert(v.buf + (first + second) =~= whole.buf + second);
    lemma_drained_in_parts(whole, second, now_ms);
}

proof fn lemma_drained_in_parts(v: SseView, more: Seq<char>, now_ms: u64)
    requires
        !drained(v, now_ms).2,
    ensures
        ({
            let (mid, pieces1, _) = drained(v, now_ms);
            let (end, pieces2, done) = fed(mid, more, now_ms);
            drained(SseView { buf: v.buf + more, ..v }, now_ms) == (end, pieces1 + pieces2, done)
        }),
    decreases v.buf.len(),
{
    let all = SseView { buf: v.buf + more, ..v };
    text::line_feed_at_is_first(v.buf);
    let nl = text::line_feed_at(v.buf);
    let (mid, pieces1, _) = drained(v, now_ms);
    let (end, pieces2, done) = fed(mid, more, now_ms);
    if nl >= v.buf.len() {
        assert(pieces1 + pieces2 =~= pieces2);
    } else {
        text::line_feed_in_longer_text(v.buf, more);
        assert(all.buf.take(nl + 1) =~= v.buf.take(nl + 1));
        assert(all.buf.skip(nl + 1) =~= v.buf.skip(nl + 1) + more);
        let rest = SseView { buf: v.buf.skip(nl + 1), ..v };
        match line_data(v.buf.take(nl + 1)) {
            None => lemma_drained_in_parts(rest, more, now_ms),
            Some(data) => {
                let e = event_of(data);
                let next = SseView { buf: rest.buf, ..applied(rest, e, now_ms) };
                lemma_drained_in_parts(next, more, now_ms);
                let later = drained(next, now_ms).1;
                assert((shown(e) + later) + pieces2 =~= shown(e) + (later + pieces2));
                let all_rest = SseView { buf: rest.buf + more, ..v };
                let all_next = SseView {
                    buf: all_rest.buf,
                    ..applied(all_rest, e, now_ms)
                };
                assert(all_next == SseView { buf: next.buf + more, ..next });
            },
        }
    }
}

/// Before the first piece of an answer nothing has been shown, and every end of
/// the stream is an error, so the next provider can be asked; after it the
/// answer so far is always kept. This holds however the stream ends, and
/// whatever was read of it since it began.
pub proof fn commits_after_first_piece(
    v: SseView,
    chunk: Seq<char>,
    end: StreamEnd,
    budget_s: u64,
    now_ms: u64,
)
    ensures
        ({
            let (read, pieces, _) = fed(v, chunk, now_ms);
            let begun = v.got_first || pieces.len() > 0;
            &&& outcome_at_end(read, end, budget_s, now_ms) is Ok <==> begun
            &&& result_at_mark(read, now_ms) is Ok <==> begun
        }),
{
    answer_is_what_was_shown(SseView { buf: v.buf + chunk, ..v }, now_ms);
}

/// Some text is all white space, on one line.
pub open spec fn blank(s: Seq<char>) -> bool {
    forall|i: int| 0 <= i < s.len() ==> text::white_space(#[trigger] s[i]) && s[i] != '\n'
}

/// A line of the stream that carries data, with the white space around it.
pub struct DataLine {
    pub before: Seq<char>,
    pub gap: Seq<char>,
    pub data: Seq<char>,
    pub after: Seq<char>,
}

impl DataLine {
    /// The line as it is sent.
    pub open spec fn sent(self) -> Seq<char> {
        self.before + "data:"@ + self.gap + self.data + self.after + "\n"@
    }

    /// The data starts and ends with something, and is on one line.
    pub open spec fn wf(self) -> bool {
        &&& blank(self.before) && blank(self.gap) && blank(self.after)
        &&& self.data.len() > 0
        &&& !text::white_space(self.data[0]) && !text::white_space(self.data.last())
        &&& !self.data.contains('\n')
    }

    /// The piece of the answer that the data holds.
    pub open spec fn piece(self) -> Seq<char> {
        match json::json_node(self.data, "/choices/0/delta/content"@) {
            Some(json::JsonView::Text(s)) => s,
            _ => seq![],
        }
    }
}

/// Some lines as they are sent.
pub open spec fn stream_of(lines: Seq<DataLine>) -> Seq<char>
    decreases lines.len(),
{
    if lines.len() == 0 {
        seq![]
    } else {
        lines[0].sent() + stream_of(lines.drop_first())
    }
}

/// The pieces of the answer in some lines, put together.
pub open spec fn answer_in(lines: Seq<DataLine>) -> Seq<char>
    decreases lines.len(),
{
    if lines.len() == 0 {
        seq![]
    } else {
        lines[0].piece() + answer_in(lines.drop_first())
    }
}

/// What a line carries is what stands between the white space after `data:`
/// and the end of the line.
pub proof fn data_lines_carry_their_data(l: DataLine)
    requires
        l.wf(),
    ensures
        line_data(l.sent()) == Some(l.data),
{
    reveal_strlit("data:");
    reveal_strlit("\n");
    let mark = "data:"@;
    let core = mark + l.gap + l.data;
    let after = l.after + "\n"@;
    assert(l.sent() =~= l.before + core + after);
    assert(core[0] == 'd');
    assert(core.last() == l.data.last());
    text::printed_ascii_is_no_white_space('d');
    text::printed_ascii_is_no_white_space('\n');
    assert forall|i: int| 0 <= i < after.len() implies text::white_space(#[trigger] after[i]) by {
        if i < l.after.len() {
            assert(after[i] == l.after[i]);
        }
    }
    text::trimmed_is_what_stands_between(l.before, core, after);
    assert(core.subrange(0, mark.len() as int) =~= mark);
    let none = Seq::<char>::empty();
    assert(core.skip(mark.len() as int) =~= l.gap + l.data + none);
    text::trimmed_is_what_stands_between(l.gap, l.data, none);
}

/// A line that does not begin with `data:` says nothing, whatever else it says.
pub proof fn other_lines_say_nothing(before: Seq<char>, core: Seq<char>, after: Seq<char>)
    requires
        forall|i: int| 0 <= i < before.len() ==> text::white_space(#[trigger] before[i]),
        forall|i: int| 0 <= i < after.len() ==> text::white_space(#[trigger] after[i]),
        core.len() > 0 ==> !text::white_space(core[0]) && !text::white_space(core.last()),
        !text::begins_with(core, "data:"@),
    ensures
        line_data(before + core + after) is None,
{
    text::trimmed_is_what_stands_between(before, core, after);
}

/// An event adds all of its piece to the answer and shows it, white space and
/// all; an event without one leaves the answer and its time alone. The first
/// piece is the one that is timed, and the usage told last is the one kept.
pub proof fn events_lose_nothing(v: SseView, e: SseEventView, now_ms: u64)
    ensures
        ({
            let after = applied(v, e, now_ms);
            let piece = match e.delta {
                Some(piece) => piece,
                None => Seq::<char>::empty(),
            };
            &&& after.text == v.text + piece
            &&& pieced(shown(e)) == piece
            &&& after.buf == v.buf
            &&& after.got_first <==> v.got_first || piece.len() > 0
            &&& after.ttft_ms == (if !v.got_first && piece.len() > 0 {
                now_ms
            } else {
                v.ttft_ms
            })
            &&& after.usage == (match e.usage {
                Some(usage) => usage,
                None => v.usage,
            })
        }),
{
    let piece = match e.delta {
        Some(piece) => piece,
        None => Seq::<char>::empty(),
    };
    if piece.len() == 0 {
        assert(v.text + piece =~= v.text);
        assert(pieced(shown(e)) =~= piece);
    } else {
        assert(seq![piece].drop_first() =~= Seq::<Seq<char>>::empty());
        assert(pieced(seq![piece].drop_first()) =~= Seq::<char>::empty());
        assert(pieced(shown(e)) =~= piece);
    }
}

proof fn lemma_first_line(line: Seq<char>, more: Seq<char>)
    requires
        !line.contains('\n'),
    ensures
        text::line_feed_at(line.push('\n') + more) == line.len(),
{
    let s = line.push('\n') + more;
    text::line_feed_at_is_first(s);
    let f = text::line_feed_at(s);
    assert(s[line.len() as int] == '\n');
    if f < line.len() {
        assert(line[f] == '\n');
    }
}

proof fn lemma_sent(l: DataLine)
    requires
        l.wf(),
    ensures
        l.sent().len() > 0,
        l.sent() == l.sent().drop_last().push('\n'),
        !l.sent().drop_last().contains('\n'),
{
    reveal_strlit("data:");
    reveal_strlit("\n");
    let s = l.sent();
    let body = l.before + "data:"@ + l.gap + l.data + l.after;
    assert(s =~= body.push('\n'));
    assert(s.drop_last() =~= body);
    if body.contains('\n') {
        let i = choose|i: int| 0 <= i < body.len() && body[i] == '\n';
        let (a, b) = (l.before.len() as int, l.before.len() + 5);
        let (c, d) = (b + l.gap.len(), b + l.gap.len() + l.data.len());
        if i < a {
            assert(body[i] == l.before[i]);
        } else if i < b {
            assert(body[i] == "data:"@[i - a]);
        } else if i < c {
            assert(body[i] == l.gap[i - b]);
        } else if i < d {
            assert(body[i] == l.data[i - c]);
            assert(l.data.contains('\n'));
        } else {
            assert(body[i] == l.after[i - d]);
        }
    }
}

proof fn lemma_drained_data(v: SseView, l: DataLine, more: Seq<char>, now_ms: u64)
    requires
        l.wf(),
        l.data != "[DONE]"@,
        v.buf == l.sent() + more,
    ensures
        ({
            let next = SseView {
                buf: more,
                ..applied(SseView { buf: more, ..v }, event_of(l.data), now_ms)
            };
            let (last, pieces, done) = drained(next, now_ms);
            drained(v, now_ms) == (last, shown(event_of(l.data)) + pieces, done)
        }),
{
    lemma_sent(l);
    lemma_first_line(l.sent().drop_last(), more);
    data_lines_carry_their_data(l);
    let nl = l.sent().len() - 1;
    assert(v.buf.take(nl + 1) =~= l.sent());
    assert(v.buf.skip(nl + 1) =~= more);
}

/// The text that is read off a stream is the pieces of its data lines, put
/// together in order with no character left out, and so is what is shown. What
/// is left of the stream is the line that has not ended.
pub proof fn every_piece_is_read(v: SseView, lines: Seq<DataLine>, rest: Seq<char>, now_ms: u64)
    requires
        forall|i: int|
            0 <= i < lines.len() ==> (#[trigger] lines[i]).wf() && lines[i].data != "[DONE]"@,
        !rest.contains('\n'),
        v.buf == stream_of(lines) + rest,
    ensures
        ({
            let (read, pieces, done) = drained(v, now_ms);
            &&& read.text == v.text + answer_in(lines)
            &&& pieced(pieces) == answer_in(lines)
            &&& read.buf == rest
            &&& !done
        }),
    decreases lines.len(),
{
    if lines.len() == 0 {
        assert(v.buf =~= rest);
        text::line_feed_at_is_first(v.buf);
        if text::line_feed_at(v.buf) < v.buf.len() {
            assert(rest[text::line_feed_at(v.buf)] == '\n');
        }
        assert(v.text + answer_in(lines) =~= v.text);
    } else {
        let l = lines[0];
        let later = lines.drop_first();
        let more = stream_of(later) + rest;
        assert(v.buf =~= l.sent() + more);
        lemma_drained_data(v, l, more, now_ms);
        let e = event_of(l.data);
        let here = SseView { buf: more, ..v };
        let next = SseView { buf: more, ..applied(here, e, now_ms) };
        events_lose_nothing(here, e, now_ms);
        assert forall|i: int| 0 <= i < later.len() implies (#[trigger] later[i]).wf()
            && later[i].data != "[DONE]"@ by {
            assert(later[i] == lines[i + 1]);
        }
        every_piece_is_read(next, later, rest, now_ms);
        let pieces = drained(next, now_ms).1;
        lemma_pieced_in_parts(shown(e), pieces);
        assert(drained(v, now_ms).0.text =~= v.text + answer_in(lines));
    }
}

/// At the end mark reading stops: the text is that of the data lines before it,
/// and nothing behind it is read.
pub proof fn reading_stops_at_the_end_mark(
    v: SseView,
    lines: Seq<DataLine>,
    mark: DataLine,
    behind: Seq<char>,
    now_ms: u64,
)
    requires
        forall|i: int|
            0 <= i < lines.len() ==> (#[trigger] lines[i]).wf() && lines[i].data != "[DONE]"@,
        mark.wf(),
        mark.data == "[DONE]"@,
        v.buf == stream_of(lines) + mark.sent() + behind,
    ensures
        ({
            let (read, pieces, done) = drained(v, now_ms);
            &&& read.text == v.text + answer_in(lines)
            &&& pieced(pieces) == answer_in(lines)
            &&& read.buf == behind
            &&& done
        }),
    decreases lines.len(),
{
    if lines.len() == 0 {
        assert(v.buf =~= mark.sent() + behind);
        lemma_sent(mark);
        lemma_first_line(mark.sent().drop_last(), behind);
        data_lines_carry_their_data(mark);
        let nl = mark.sent().len() - 1;
        assert(v.buf.take(nl + 1) =~= mark.sent());
        assert(v.buf.skip(nl + 1) =~= behind);
        assert(v.text + answer_in(lines) =~= v.text);
    } else {
        let l = lines[0];
        let later = lines.drop_first();
        let more = stream_of(later) + mark.sent() + behind;
        assert(v.buf =~= l.sent() + more);
        lemma_drained_data(v, l, more, now_ms);
        let e = event_of(l.data);
        let here = SseView { buf: more, ..v };
        let next = SseView { buf: more, ..applied(here, e, now_ms) };
        events_lose_nothing(here, e, now_ms);
        assert forall|i: int| 0 <= i < later.len() implies (#[trigger] later[i]).wf()
            && later[i].data != "[DONE]"@ by {
            assert(later[i] == lines[i + 1]);
        }
        reading_stops_at_the_end_mark(next, later, mark, behind, now_ms);
        let pieces = drained(next, now_ms).1;
        lemma_pieced_in_parts(shown(e), pieces);
        assert(drained(v, now_ms).0.text =~= v.text + answer_in(lines));
    }
}

proof fn lemma_pieced_in_parts(a: Seq<Seq<char>>, b: Seq<Seq<char>>)
    ensures
        pieced(a + b) == pieced(a) + pieced(b),
    decreases a.len(),
{
    if a.len() == 0 {
        assert(a + b =~= b);
        assert(pieced(a) + pieced(b) =~= pieced(b));
    } else {
        lemma_pieced_in_parts(a.drop_first(), b);
        assert((a + b).drop_first() =~= a.drop_first() + b);
        assert(pieced(a + b) =~= pieced(a) + pieced(b));
    }
}

/// An answer that has begun is kept whole however its stream ends: only white
/// space around it goes. It keeps its time to the first piece, its whole time
/// and its usage.
pub proof fn begun_answers_are_kept_whole(
    v: SseView,
    end: StreamEnd,
    budget_s: u64,
    now_ms: u64,
    before: Seq<char>,
    answer: Seq<char>,
    after: Seq<char>,
)
    requires
        v.got_first,
        v.text == before + answer + after,
        forall|i: int| 0 <= i < before.len() ==> text::white_space(#[trigger] before[i]),
        forall|i: int| 0 <= i < after.len() ==> text::white_space(#[trigger] after[i]),
        answer.len() > 0 ==> !text::white_space(answer[0]) && !text::white_space(answer.last()),
    ensures
        outcome_at_end(v, end, budget_s, now_ms) == Ok::<SseOutcomeView, Seq<char>>(
            SseOutcomeView { text: answer, ttft_ms: v.ttft_ms, total_ms: now_ms, usage: v.usage },
        ),
        result_at_mark(v, now_ms) is Ok,
        result_at_mark(v, now_ms)->Ok_0.text == answer,
        result_at_mark(v, now_ms)->Ok_0.total_ms == now_ms,
        result_at_mark(v, now_ms)->Ok_0.usage == v.usage,
        v.ttft_ms > 0 ==> result_at_mark(v, now_ms)->Ok_0.ttft_ms == v.ttft_ms,
        v.ttft_ms == 0 ==> result_at_mark(v, now_ms)->Ok_0.ttft_ms == now_ms,
{
    text::trimmed_is_what_stands_between(before, answer, after);
}

/// A refusal is reported with its status and with what the server said, all of
/// it where it is short enough.
pub proof fn refusals_quote_the_server(
    status: Seq<char>,
    body: Seq<char>,
    rest: Seq<char>,
    limit: nat,
)
    ensures
        body.len() <= limit ==> refused(status, body, limit) == "HTTP "@ + status + ": "@ + body,
        body.len() == limit ==> refused(status, body + rest, limit) == refused(status, body, limit),
{
    text::heads_are_beginnings(body, rest, limit);
}

/// The usage is told by an object with its three counts; a count that is not
/// there is zero.
pub proof fn usage_is_read_by_its_names(data: Seq<char>, prompt: u64, cached: u64, completion: u64)
    requires
        json::json_node(data, "/usage"@) == Some(json::JsonView::Object),
        json::json_node(data, "/usage/prompt_tokens"@) == Some(json::JsonView::Unsigned(prompt)),
        json::json_node(data, "/usage/prompt_tokens_details/cached_tokens"@) == Some(
            json::JsonView::Unsigned(cached),
        ),
        json::json_node(data, "/usage/completion_tokens"@) == Some(
            json::JsonView::Unsigned(completion),
        ),
    ensures
        event_of(data).usage == Some(TokenUsage { prompt, cached, completion }),
{
}

/// Where no answer came the reason is given: what the connection failed with, or
/// how long was waited.
pub proof fn silence_is_explained(v: SseView, why: String, budget_s: u64, now_ms: u64)
    requires
        !v.got_first,
    ensures
        outcome_at_end(v, StreamEnd::Failed(why), budget_s, now_ms) == Err::<
            SseOutcomeView,
            Seq<char>,
        >("stream error before first token: "@ + why@),
        outcome_at_end(v, StreamEnd::TimedOut, budget_s, now_ms) == Err::<
            SseOutcomeView,
            Seq<char>,
        >("no first token within "@ + text::decimal(budget_s as nat) + "s"@),
        outcome_at_end(v, StreamEnd::Closed, budget_s, now_ms) == result_at_mark(v, now_ms),
{
}

} // verus!
