//! How many tokens the agent's context holds right now.
//!
//! The exact number is what the provider reports with an answer. Until one
//! comes, and for what was added since, the tokens are counted locally with
//! the tokenizer that the models use.

use vstd::prelude::*;
use crate::backend;
use crate::lang::Language;

verus! {

/// Tokens that the provider adds around the three messages of an agent press.
pub const CHAT_FORMAT_OVERHEAD: u64 = 12;

/// The tokens of a text in the `o200k_base` vocabulary: none where the
/// tokenizer gives the text up.
pub uninterp spec fn o200k_tokens(s: Seq<char>) -> Option<Seq<u32>>;

/// `tiktoken_rs::CoreBPE::encode` of the `o200k_base` tokenizer, with its
/// special tokens allowed. Claims that the tokens depend on the text alone. It
/// fails where its pattern matcher runs out of steps on the text.
#[verifier::external_body]
fn o200k_encode(s: &str) -> (r: Option<Vec<u32>>)
    ensures
        r is Some <==> o200k_tokens(s@) is Some,
        r is Some ==> o200k_tokens(s@) == Some(r->0@),
{
    let bpe = tiktoken_rs::o200k_base_singleton();
    bpe.encode(s, &bpe.special_tokens()).ok().map(|encoded| encoded.0)
}

/// The number of a text's tokens.
pub open spec fn token_count(s: Seq<char>) -> Option<nat> {
    match o200k_tokens(s) {
        Some(tokens) => Some(tokens.len()),
        None => None,
    }
}

/// The number of a text's tokens, or `None` where the tokenizer gives up.
pub fn count_tokens(s: &str) -> (r: Option<usize>)
    ensures
        r is Some <==> token_count(s@) is Some,
        r is Some ==> token_count(s@) == Some(r->0 as nat),
{
    match o200k_encode(s) {
        Some(tokens) => Some(tokens.len()),
        None => None,
    }
}

/// The tokens of the agent's prompt without its transcript.
pub open spec fn base_tokens(language: Language, state_block: Seq<char>) -> Option<nat> {
    match (
        token_count(backend::agent_instructions(language)),
        token_count(backend::tail_of(state_block, language)),
    ) {
        (Some(system), Some(tail)) => Some(system + tail),
        _ => None,
    }
}

/// The tokens of the agent's prompt without its transcript: `None` where the
/// tokenizer gives up or the sum does not fit.
pub fn agent_prompt_base_tokens(language: Language, state_block: &str) -> (r: Option<u64>)
    ensures
        r is Some <==> (base_tokens(language, state_block@) is Some && base_tokens(
            language,
            state_block@,
        )->0 <= u64::MAX),
        r is Some ==> base_tokens(language, state_block@) == Some(r->0 as nat),
{
    let tail = backend::agent_tail(state_block, language);
    match (count_tokens(backend::agent_system(language)), count_tokens(tail.as_str())) {
        (Some(a), Some(b)) => (a as u64).checked_add(b as u64),
        _ => None,
    }
}

/// One reading of the meter.
#[derive(Clone, Copy, Debug, PartialEq, Eq, Structural)]
pub struct ContextGauge {
    /// The best estimate of the context's size.
    pub used: u64,
    /// The part of it that the provider has not confirmed yet.
    pub pending: u64,
    /// What the model can hold.
    pub window: u64,
}

/// What the provider reported at the last answer: the size of that prompt, and
/// the local count of the transcript at the time.
#[derive(Clone, Copy, Debug, PartialEq, Eq, Structural)]
pub struct Anchor {
    pub prompt_tokens: u64,
    pub line_tokens: u64,
}

/// The local count of what was added since the anchor.
pub open spec fn since_anchor(anchor: Anchor, line_tokens: u64) -> int {
    if line_tokens > anchor.line_tokens {
        line_tokens - anchor.line_tokens
    } else {
        0
    }
}

/// The size of the context: what the provider confirmed and the local count of
/// what was added since, or an estimate of the whole where it never reported.
pub open spec fn context_size(anchor: Anchor, line_tokens: u64, base: nat) -> int {
    if anchor.prompt_tokens > 0 {
        anchor.prompt_tokens + since_anchor(anchor, line_tokens)
    } else {
        base + line_tokens + CHAT_FORMAT_OVERHEAD
    }
}

/// The part of it that the provider has not confirmed.
pub open spec fn unconfirmed(anchor: Anchor, line_tokens: u64, base: nat) -> int {
    if anchor.prompt_tokens > 0 {
        since_anchor(anchor, line_tokens)
    } else {
        context_size(anchor, line_tokens, base)
    }
}

/// Reads the meter. `base` is the size of the prompt without its transcript,
/// which counts only as long as the provider never reported.
pub fn gauge(anchor: Anchor, line_tokens: u64, base: u64, window: u64) -> (r: ContextGauge)
    requires
        context_size(anchor, line_tokens, base as nat) <= u64::MAX,
    ensures
        r.used == context_size(anchor, line_tokens, base as nat),
        r.pending == unconfirmed(anchor, line_tokens, base as nat),
        r.window == window,
{
    if anchor.prompt_tokens > 0 {
        let pending: u64 = line_tokens.saturating_sub(anchor.line_tokens);
        return ContextGauge { used: anchor.prompt_tokens + pending, pending, window };
    }
    let used: u64 = base + line_tokens + CHAT_FORMAT_OVERHEAD;
    ContextGauge { used, pending: used, window }
}

/// Reads the meter from the session's own numbers. `None` where the tokenizer
/// gives up on the prompt, or where a sum does not fit.
pub fn read_gauge(
    anchor: Anchor,
    line_tokens: u64,
    language: Language,
    state_block: &str,
    window: u64,
) -> (r: Option<ContextGauge>)
    ensures
        ({
            let base = if anchor.prompt_tokens > 0 {
                Some(0nat)
            } else {
                base_tokens(language, state_block@)
            };
            &&& r is Some <==> base is Some && context_size(anchor, line_tokens, base->0)
                <= u64::MAX
            &&& r matches Some(g) ==> {
                &&& g.used == context_size(anchor, line_tokens, base->0)
                &&& g.pending == unconfirmed(anchor, line_tokens, base->0)
                &&& g.window == window
            }
        }),
{
    if anchor.prompt_tokens > 0 {
        let pending: u64 = line_tokens.saturating_sub(anchor.line_tokens);
        if pending > u64::MAX - anchor.prompt_tokens {
            return None;
        }
        return Some(gauge(anchor, line_tokens, 0, window));
    }
    let base: u64 = match agent_prompt_base_tokens(language, state_block) {
        Some(base) => base,
        None => return None,
    };
    if line_tokens > u64::MAX - CHAT_FORMAT_OVERHEAD || base > u64::MAX - CHAT_FORMAT_OVERHEAD
        - line_tokens {
        return None;
    }
    Some(gauge(anchor, line_tokens, base, window))
}

/// What the provider has not confirmed is never more than the whole. Before its
/// first report nothing is confirmed, and the whole holds the transcript and
/// what the provider adds around it.
pub proof fn pending_is_part_of_the_whole(anchor: Anchor, line_tokens: u64, base: nat)
    ensures
        0 <= unconfirmed(anchor, line_tokens, base) <= context_size(anchor, line_tokens, base),
        anchor.prompt_tokens == 0 ==> {
            &&& unconfirmed(anchor, line_tokens, base) == context_size(anchor, line_tokens, base)
            &&& context_size(anchor, line_tokens, base) >= line_tokens + CHAT_FORMAT_OVERHEAD
        },
{
}

/// Right after an answer nothing is pending: the meter shows what the provider
/// reported. What is added later is all that is uncertain about it.
pub proof fn anchored_reading_is_exact(anchor: Anchor, line_tokens: u64, base: nat)
    requires
        anchor.prompt_tokens > 0,
        line_tokens >= anchor.line_tokens,
    ensures
        unconfirmed(anchor, anchor.line_tokens, base) == 0,
        context_size(anchor, anchor.line_tokens, base) == anchor.prompt_tokens,
        context_size(anchor, line_tokens, base) - anchor.prompt_tokens == line_tokens
            - anchor.line_tokens,
{
}

/// Before the provider's first report the reading is the whole prompt: the
/// instructions and the tail, the transcript, and twelve tokens around them.
pub proof fn unanchored_reading_counts_everything(
    line_tokens: u64,
    language: Language,
    state_block: Seq<char>,
    system: nat,
    tail: nat,
)
    requires
        token_count(backend::agent_instructions(language)) == Some(system),
        token_count(backend::tail_of(state_block, language)) == Some(tail),
    ensures
        ({
            let anchor = Anchor { prompt_tokens: 0, line_tokens: 0 };
            &&& base_tokens(language, state_block) == Some(system + tail)
            &&& context_size(anchor, line_tokens, system + tail) == system + tail + line_tokens + 12
        }),
{
}

/// A reading never falls while lines are added.
pub proof fn readings_grow_with_the_transcript(
    anchor: Anchor,
    line_tokens: u64,
    more: u64,
    base: nat,
)
    requires
        line_tokens <= more,
    ensures
        context_size(anchor, line_tokens, base) <= context_size(anchor, more, base),
        unconfirmed(anchor, line_tokens, base) <= unconfirmed(anchor, more, base),
{
}

} // verus!
