//! The continuous pipeline: a light online model drives live partials, and at
//! each endpoint a stronger model decodes the buffered utterance once more for
//! the final line.
//!
//! The models, the clock and the loudness measure stay outside. This module
//! holds what the loop keeps between rounds and decides what each round does.

use vstd::prelude::*;
use crate::audio;
use crate::audio::BleedWindow;
use crate::lang::Language;
use crate::samples;
use crate::text;

verus! {

/// The sample rate that the models take.
pub const WHISPER_SAMPLE_RATE: usize = 16_000;

/// Buffered utterance audio past which no more is kept: a minute.
pub const UTTERANCE_CAP: usize = 960_000;

/// How much audio without words carries over into the next utterance: three
/// seconds.
pub const CARRY_MAX: usize = 48_000;

/// A Spanish utterance of so few words keeps the online text: the offline model
/// makes words up on tiny fragments.
pub const SPANISH_SHORT_FINAL_WORDS: usize = 2;

/// What a pipeline does with the bleed window.
#[derive(Clone, Copy, Debug, PartialEq, Eq, Structural)]
pub enum BleedRole {
    /// The interviewer's pipeline publishes what it hears.
    Feeds,
    /// The microphone's pipeline drops echoes.
    Reads,
    /// Single capture: there is no window.
    Neither,
}

/// The role that follows from the speaker, where two pipelines share a window.
pub open spec fn bleed_role(speaker: Seq<char>, dual: bool) -> BleedRole {
    if dual && speaker == "interviewer"@ {
        BleedRole::Feeds
    } else if dual && speaker == "me"@ {
        BleedRole::Reads
    } else {
        BleedRole::Neither
    }
}

/// The energy gate of a speaker's pipeline, in tenths of the common silence
/// threshold. The microphone's is higher: playback bleeds into it just above
/// the common one.
pub open spec fn gate_tenths(speaker: Seq<char>) -> nat {
    if speaker == "me"@ {
        25
    } else {
        10
    }
}

pub fn rms_gate_tenths(speaker: &str) -> (r: u32)
    ensures
        r == gate_tenths(speaker@),
{
    if text::same(speaker, "me") {
        25
    } else {
        10
    }
}

/// How the final text of an utterance is to be had.
pub enum SecondPass<S> {
    /// Keep the online text.
    Skip,
    /// Wait for the decode that is already under way.
    Await,
    /// Decode this audio now.
    Decode(Vec<S>),
}

/// What an endpoint asks for.
pub enum Endpoint<S> {
    /// Nobody spoke.
    Silent,
    /// Words were heard in audio below the energy gate: drop them.
    Quiet,
    /// An utterance ended. Settle its final text.
    Utterance { online: String, pass: SecondPass<S> },
}

/// `SecondPass` over sequences.
pub enum SecondPassView<S> {
    Skip,
    Await,
    Decode(Seq<S>),
}

/// `Endpoint` over sequences.
pub enum EndpointView<S> {
    Silent,
    Quiet,
    Utterance { online: Seq<char>, pass: SecondPassView<S> },
}

impl<S> View for Endpoint<S> {
    type V = EndpointView<S>;

    open spec fn view(&self) -> EndpointView<S> {
        match self {
            Endpoint::Silent => EndpointView::Silent,
            Endpoint::Quiet => EndpointView::Quiet,
            Endpoint::Utterance { online, pass } => EndpointView::Utterance {
                online: online@,
                pass: match pass {
                    SecondPass::Skip => SecondPassView::Skip,
                    SecondPass::Await => SecondPassView::Await,
                    SecondPass::Decode(audio) => SecondPassView::Decode(audio@),
                },
            },
        }
    }
}

/// What the loop keeps between rounds.
#[verifier::ext_equal]
pub struct StreamView<S> {
    pub speaker: Seq<char>,
    pub language: Language,
    pub role: BleedRole,
    /// Audio since the last endpoint, with what it carried over in front.
    pub utterance: Seq<S>,
    /// How much of it was carried over.
    pub carried: int,
    /// Whether any block of it reached the energy gate.
    pub loud: bool,
    /// Whether a decode of it is under way.
    pub speculative: bool,
    /// The partial on show.
    pub last_partial: Seq<char>,
}

impl<S> StreamView<S> {
    pub open spec fn wf(self) -> bool {
        0 <= self.carried <= self.utterance.len()
    }

    /// Where an endpoint cuts the utterance: `token_end` samples past the start
    /// of the segment, just after its last word.
    pub open spec fn cut(self, token_end: int) -> int {
        if self.carried + token_end < self.utterance.len() {
            self.carried + token_end
        } else {
            self.utterance.len() as int
        }
    }

    /// The audio past the cut that goes over into the next utterance.
    pub open spec fn carry(self, token_end: int) -> Seq<S> {
        let from = self.cut(token_end);
        let to = if from + CARRY_MAX < self.utterance.len() {
            from + CARRY_MAX
        } else {
            self.utterance.len() as int
        };
        self.utterance.subrange(from, to)
    }
}

/// A block of audio comes in.
pub open spec fn hear<S>(v: StreamView<S>, block: Seq<S>, loud: bool) -> StreamView<S> {
    StreamView {
        loud: v.loud || loud,
        utterance: if v.utterance.len() < UTTERANCE_CAP {
            v.utterance + block
        } else {
            v.utterance
        },
        ..v
    }
}

/// Whether a decode of the utterance may start ahead of its endpoint.
pub open spec fn may_speculate<S>(
    v: StreamView<S>,
    heard: Seq<char>,
    trailing: bool,
    available: bool,
) -> bool {
    !v.speculative && heard.len() > 0 && v.loud && trailing && available
}

/// Whether an utterance keeps its online text.
pub open spec fn short_fragment(language: Language, online: Seq<char>) -> bool {
    language == Language::Spanish && text::words_in(online) <= SPANISH_SHORT_FINAL_WORDS
}

/// What an endpoint asks for.
pub open spec fn endpoint_of<S>(
    v: StreamView<S>,
    heard: Seq<char>,
    token_end: int,
) -> EndpointView<S> {
    let online = text::trimmed(heard);
    if online.len() == 0 {
        EndpointView::Silent
    } else if !v.loud {
        EndpointView::Quiet
    } else {
        EndpointView::Utterance {
            online,
            pass: if short_fragment(v.language, online) {
                SecondPassView::Skip
            } else if v.speculative {
                SecondPassView::Await
            } else {
                SecondPassView::Decode(v.utterance.take(v.cut(token_end)))
            },
        }
    }
}

/// What the loop keeps after an endpoint. The loudness of the audio carried
/// over is yet to be measured.
pub open spec fn after_endpoint<S>(
    v: StreamView<S>,
    heard: Seq<char>,
    token_end: int,
) -> StreamView<S> {
    let kept = if text::trimmed(heard).len() > 0 {
        v.carry(token_end)
    } else {
        seq![]
    };
    StreamView {
        utterance: kept,
        carried: kept.len() as int,
        loud: false,
        speculative: false,
        last_partial: seq![],
        ..v
    }
}

/// Whether a hypothesis is shown as a new partial.
pub open spec fn shows_partial<S>(v: StreamView<S>, heard: Seq<char>) -> bool {
    heard.len() > 0 && heard != v.last_partial && v.loud
}

/// What the loop keeps after a round without an endpoint.
pub open spec fn after_partial<S>(v: StreamView<S>, heard: Seq<char>) -> StreamView<S> {
    if shows_partial(v, heard) {
        StreamView { speculative: false, last_partial: heard, ..v }
    } else {
        v
    }
}

/// The final text: what the second pass heard, or the online text where it
/// failed or heard nothing.
pub open spec fn final_text(online: Seq<char>, second: Option<Seq<char>>) -> Seq<char> {
    match second {
        Some(heard) if text::trimmed(heard).len() > 0 => text::trimmed(heard),
        _ => online,
    }
}

/// The state of one streaming pipeline.
pub struct StreamPipeline<S> {
    speaker: String,
    language: Language,
    role: BleedRole,
    utterance: Vec<S>,
    carried: usize,
    loud: bool,
    speculative: bool,
    last_partial: String,
}

impl<S> View for StreamPipeline<S> {
    type V = StreamView<S>;

    closed spec fn view(&self) -> StreamView<S> {
        StreamView {
            speaker: self.speaker@,
            language: self.language,
            role: self.role,
            utterance: self.utterance@,
            carried: self.carried as int,
            loud: self.loud,
            speculative: self.speculative,
            last_partial: self.last_partial@,
        }
    }
}

impl<S: Copy> StreamPipeline<S> {
    /// A pipeline that has heard nothing. `dual` says that another pipeline
    /// shares its bleed window.
    pub fn new(speaker: &str, language: Language, dual: bool) -> (r: Self)
        ensures
            r@.wf(),
            r@ == (StreamView {
                speaker: speaker@,
                language,
                role: bleed_role(speaker@, dual),
                utterance: Seq::<S>::empty(),
                carried: 0,
                loud: false,
                speculative: false,
                last_partial: seq![],
            }),
    {
        let role = if dual && text::same(speaker, "interviewer") {
            BleedRole::Feeds
        } else if dual && text::same(speaker, "me") {
            BleedRole::Reads
        } else {
            BleedRole::Neither
        };
        let r = StreamPipeline {
            speaker: speaker.to_owned(),
            language,
            role,
            utterance: Vec::new(),
            carried: 0,
            loud: false,
            speculative: false,
            last_partial: String::new(),
        };
        assert(r@.last_partial =~= seq![]);
        r
    }

    /// Takes in a block of audio that did or did not reach the energy gate.
    pub fn hear(&mut self, block: &[S], loud: bool)
        requires
            old(self)@.wf(),
        ensures
            final(self)@ == hear(old(self)@, block@, loud),
            final(self)@.wf(),
    {
        self.loud = self.loud || loud;
        if self.utterance.len() < UTTERANCE_CAP {
            samples::push_all(&mut self.utterance, block);
        }
    }

    /// The samples heard since the last endpoint.
    pub fn segment_samples(&self) -> (r: usize)
        requires
            self@.wf(),
        ensures
            r == self@.utterance.len() - self@.carried,
    {
        self.utterance.len() - self.carried
    }

    /// Start the second pass ahead of the endpoint, where words were heard, the
    /// speaker has been silent for a while and the model is there. Gives the
    /// audio to decode.
    pub fn speculate(&mut self, heard: &str, trailing: bool, available: bool) -> (r: Option<Vec<S>>)
        requires
            old(self)@.wf(),
        ensures
            final(self)@.wf(),
            may_speculate(old(self)@, heard@, trailing, available) ==> r is Some && r->0@ == old(
                self,
            )@.utterance && final(self)@ == (StreamView { speculative: true, ..old(self)@ }),
            !may_speculate(old(self)@, heard@, trailing, available) ==> r is None && final(self)@
                == old(self)@,
    {
        if !self.speculative && heard.unicode_len() > 0 && self.loud && trailing && available {
            self.speculative = true;
            let snapshot = samples::slice_of(&self.utterance, 0, self.utterance.len());
            assert(snapshot@ =~= self.utterance@);
            Some(snapshot)
        } else {
            None
        }
    }

    /// The online model reports an endpoint, with the text it heard and how far
    /// into the segment its last word reaches. What follows that word belongs
    /// to the next utterance and is kept. Measure its loudness and hand it to
    /// `level` before the next round.
    pub fn endpoint(&mut self, heard: &str, token_end: usize) -> (r: Endpoint<S>)
        requires
            old(self)@.wf(),
        ensures
            r@ == endpoint_of(old(self)@, heard@, token_end as int),
            final(self)@ == after_endpoint(old(self)@, heard@, token_end as int),
            final(self)@.wf(),
    {
        let ghost v = self@;
        let online = text::trim(heard);
        let had_speech = online.unicode_len() > 0;
        let len: usize = self.utterance.len();
        let cut: usize = if token_end < len - self.carried {
            self.carried + token_end
        } else {
            len
        };
        assert(cut == v.cut(token_end as int));
        let r = if !had_speech {
            Endpoint::Silent
        } else if !self.loud {
            Endpoint::Quiet
        } else {
            let short = self.language == Language::Spanish && text::word_count(online)
                <= SPANISH_SHORT_FINAL_WORDS;
            let pass = if short {
                SecondPass::Skip
            } else if self.speculative {
                SecondPass::Await
            } else {
                let audio = samples::slice_of(&self.utterance, 0, cut);
                assert(audio@ =~= v.utterance.take(cut as int));
                SecondPass::Decode(audio)
            };
            Endpoint::Utterance { online: online.to_owned(), pass }
        };
        if had_speech {
            let to: usize = if CARRY_MAX < len - cut {
                cut + CARRY_MAX
            } else {
                len
            };
            self.utterance = samples::slice_of(&self.utterance, cut, to);
        } else {
            self.utterance = Vec::new();
        }
        self.carried = self.utterance.len();
        self.loud = false;
        self.speculative = false;
        self.last_partial = String::new();
        assert(self@ =~= after_endpoint(v, heard@, token_end as int));
        r
    }

    /// The audio carried over from the last endpoint, for its loudness.
    pub fn carried_audio(&self) -> (r: &Vec<S>)
        ensures
            r@ == self@.utterance,
    {
        &self.utterance
    }

    /// Whether the audio carried over reaches the energy gate.
    pub fn level(&mut self, loud: bool)
        requires
            old(self)@.wf(),
        ensures
            final(self)@ == (StreamView { loud, ..old(self)@ }),
            final(self)@.wf(),
    {
        self.loud = loud;
    }

    /// The line to show for an utterance that ended, or `None` where it is an
    /// echo of the interviewer. `second` is what the second pass heard, where
    /// it ran and did not fail.
    pub fn settle(
        &self,
        online: String,
        second: Option<String>,
        window: &mut BleedWindow,
        now_ns: u64,
    ) -> (r: Option<String>)
        ensures
            ({
                let line = final_text(
                    online@,
                    match second {
                        Some(s) => Some(s@),
                        None => None,
                    },
                );
                if self@.role == BleedRole::Reads && audio::echoes(line, old(window)@, now_ns) {
                    r is None && final(window)@ == old(window)@
                } else {
                    r is Some && r->0@ == line && final(window)@ == (if self@.role
                        == BleedRole::Feeds {
                        audio::published(old(window)@, line, now_ns)
                    } else {
                        old(window)@
                    })
                }
            }),
    {
        let line = match second {
            Some(heard) => {
                let t = text::trim(heard.as_str());
                if t.unicode_len() > 0 {
                    t.to_owned()
                } else {
                    online
                }
            },
            None => online,
        };
        match self.role {
            BleedRole::Reads => {
                if window.is_bleed(line.as_str(), now_ns) {
                    return None;
                }
            },
            BleedRole::Feeds => {
                window.publish(line.as_str(), now_ns);
            },
            BleedRole::Neither => {},
        }
        Some(line)
    }

    /// A round without an endpoint: whether the text heard so far is a new
    /// partial to show. A new one means that the speaker went on, so a decode
    /// under way no longer covers the utterance. The interviewer's partials
    /// count as a source of echo too: the microphone often ends first.
    pub fn partial(&mut self, heard: &str, window: &mut BleedWindow, now_ns: u64) -> (r: bool)
        requires
            old(self)@.wf(),
        ensures
            r == shows_partial(old(self)@, heard@),
            final(self)@ == after_partial(old(self)@, heard@),
            final(self)@.wf(),
            final(window)@ == (if r && old(self)@.role == BleedRole::Feeds {
                audio::published(old(window)@, heard@, now_ns)
            } else {
                old(window)@
            }),
    {
        if heard.unicode_len() > 0 && !text::same(heard, self.last_partial.as_str()) && self.loud {
            self.speculative = false;
            match self.role {
                BleedRole::Feeds => {
                    window.publish(heard, now_ns);
                },
                _ => {},
            }
            self.last_partial = heard.to_owned();
            true
        } else {
            false
        }
    }
}

/// Words at the boundary survive: the audio decoded for an utterance and the
/// audio carried into the next are together all that was buffered, where the
/// tail is short enough to carry.
pub proof fn boundary_audio_survives<S>(v: StreamView<S>, heard: Seq<char>, token_end: int)
    requires
        v.wf(),
        token_end >= 0,
        text::trimmed(heard).len() > 0,
        v.utterance.len() - v.cut(token_end) <= CARRY_MAX,
    ensures
        v.utterance.take(v.cut(token_end)) + after_endpoint(v, heard, token_end).utterance
            == v.utterance,
{
    assert(v.utterance.take(v.cut(token_end)) + v.carry(token_end) =~= v.utterance);
}

/// An endpoint leaves at most three seconds behind, and nothing where nobody
/// spoke, so silence never piles up.
pub proof fn carry_is_bounded<S>(v: StreamView<S>, heard: Seq<char>, token_end: int)
    requires
        v.wf(),
        token_end >= 0,
    ensures
        after_endpoint(v, heard, token_end).wf(),
        after_endpoint(v, heard, token_end).utterance.len() <= CARRY_MAX,
        text::trimmed(heard).len() == 0 ==> after_endpoint(v, heard, token_end).utterance.len()
            == 0,
{
}

/// The buffer never grows past the cap by more than one block.
pub proof fn utterance_is_capped<S>(v: StreamView<S>, block: Seq<S>, loud: bool, longest: int)
    requires
        v.utterance.len() < UTTERANCE_CAP + longest,
        block.len() <= longest,
    ensures
        hear(v, block, loud).utterance.len() < UTTERANCE_CAP + longest,
{
}

/// Audio below the energy gate shows nothing: no partial, no line, and no
/// decode is spent on it.
pub proof fn quiet_audio_shows_nothing<S>(
    v: StreamView<S>,
    heard: Seq<char>,
    token_end: int,
    trailing: bool,
    available: bool,
)
    requires
        !v.loud,
    ensures
        !shows_partial(v, heard),
        !may_speculate(v, heard, trailing, available),
        !(endpoint_of(v, heard, token_end) is Utterance),
{
}

/// Once a new partial is shown the speaker went on, so a decode that was under
/// way is no longer awaited: the utterance is decoded afresh.
pub proof fn stale_decodes_are_not_awaited<S>(
    v: StreamView<S>,
    partial: Seq<char>,
    heard: Seq<char>,
    token_end: int,
)
    requires
        shows_partial(v, partial),
    ensures
        !(endpoint_of(after_partial(v, partial), heard, token_end) matches EndpointView::Utterance {
            pass: SecondPassView::Await,
            ..
        }),
{
}

/// A short Spanish utterance keeps the online text: nothing is decoded for it,
/// and without a second pass the final text is what the online model heard.
pub proof fn short_spanish_keeps_online_text<S>(v: StreamView<S>, heard: Seq<char>, token_end: int)
    requires
        v.language == Language::Spanish,
        v.loud,
        0 < text::trimmed(heard).len(),
        text::words_in(text::trimmed(heard)) <= SPANISH_SHORT_FINAL_WORDS,
    ensures
        endpoint_of(v, heard, token_end) == (EndpointView::Utterance::<S> {
            online: text::trimmed(heard),
            pass: SecondPassView::Skip,
        }),
        final_text(text::trimmed(heard), None) == text::trimmed(heard),
{
}

/// Some text is all white space.
pub open spec fn blank(s: Seq<char>) -> bool {
    forall|i: int| 0 <= i < s.len() ==> text::white_space(#[trigger] s[i])
}

/// The final text keeps everything that the second pass heard: a text that is
/// not blank is the line with nothing but white space around it. Where the
/// second pass heard nothing or did not run, the online text is kept as it is.
pub proof fn second_pass_text_is_kept_whole(online: Seq<char>, heard: Seq<char>)
    ensures
        !blank(heard) ==> exists|a: Seq<char>, b: Seq<char>|
            {
                &&& heard == #[trigger] (a + final_text(online, Some(heard)) + b)
                &&& blank(a)
                &&& blank(b)
            },
        blank(heard) ==> final_text(online, Some(heard)) == online,
        final_text(online, None) == online,
{
    let none = Seq::<char>::empty();
    if blank(heard) {
        text::trimmed_is_what_stands_between(heard, none, none);
        assert(heard + none + none =~= heard);
    } else {
        text::trimmed_drops_only_white_space(heard);
        let (a, b) = choose|a: Seq<char>, b: Seq<char>|
            {
                &&& heard == #[trigger] (a + text::trimmed(heard) + b)
                &&& forall|i: int| 0 <= i < a.len() ==> text::white_space(#[trigger] a[i])
                &&& forall|i: int| 0 <= i < b.len() ==> text::white_space(#[trigger] b[i])
            };
        if text::trimmed(heard).len() == 0 {
            assert(heard =~= a + b);
            assert forall|i: int| 0 <= i < heard.len() implies text::white_space(
                #[trigger] heard[i],
            ) by {
                if i < a.len() {
                    assert(heard[i] == a[i]);
                } else {
                    assert(heard[i] == b[i - a.len()]);
                }
            }
            assert(blank(heard));
        }
        assert(blank(a) && blank(b));
        assert(heard == a + final_text(online, Some(heard)) + b);
    }
}

/// Every utterance that was heard and is loud enough is settled, with all of its
/// text. The strong model decodes it unless a decode is under way or it is a
/// Spanish fragment of one or two words, and it is given the audio from the
/// start of the buffer up to the end of the last word.
pub proof fn loud_words_are_settled<S>(
    v: StreamView<S>,
    before: Seq<char>,
    words: Seq<char>,
    after: Seq<char>,
    token_end: int,
)
    requires
        v.wf(),
        token_end >= 0,
        blank(before),
        blank(after),
        words.len() > 0 ==> !text::white_space(words[0]) && !text::white_space(words.last()),
    ensures
        ({
            let heard = before + words + after;
            let end = if v.carried + token_end < v.utterance.len() {
                v.carried + token_end
            } else {
                v.utterance.len() as int
            };
            endpoint_of(v, heard, token_end) == (if words.len() == 0 {
                EndpointView::<S>::Silent
            } else if !v.loud {
                EndpointView::Quiet
            } else {
                EndpointView::Utterance {
                    online: words,
                    pass: if v.language == Language::Spanish && text::words_in(words) <= 2 {
                        SecondPassView::Skip
                    } else if v.speculative {
                        SecondPassView::Await
                    } else {
                        SecondPassView::Decode(v.utterance.subrange(0, end))
                    },
                }
            })
        }),
{
    text::trimmed_is_what_stands_between(before, words, after);
    let heard = before + words + after;
    if words.len() > 0 && v.loud {
        assert(v.utterance.take(v.cut(token_end)) =~= v.utterance.subrange(0, v.cut(token_end)));
    }
}

/// What an endpoint leaves: after words, the audio that follows the last of
/// them, up to three seconds of it; after silence, nothing. Everything else
/// starts afresh, and who speaks which language stays.
pub proof fn endpoints_leave_what_follows_the_words<S>(
    v: StreamView<S>,
    heard: Seq<char>,
    token_end: int,
)
    requires
        v.wf(),
        token_end >= 0,
    ensures
        ({
            let next = after_endpoint(v, heard, token_end);
            let all = v.utterance;
            let from = if v.carried + token_end < all.len() {
                v.carried + token_end
            } else {
                all.len() as int
            };
            let to = if all.len() - from > 3 * WHISPER_SAMPLE_RATE {
                from + 3 * WHISPER_SAMPLE_RATE
            } else {
                all.len() as int
            };
            &&& !blank(heard) ==> next.utterance == all.subrange(from, to)
            &&& blank(heard) ==> next.utterance.len() == 0
            &&& next.carried == next.utterance.len()
            &&& !next.loud && !next.speculative && next.last_partial.len() == 0
            &&& next.speaker == v.speaker && next.language == v.language && next.role == v.role
        }),
{
    let none = Seq::<char>::empty();
    if blank(heard) {
        text::trimmed_is_what_stands_between(heard, none, none);
        assert(heard + none + none =~= heard);
    } else {
        second_pass_text_is_kept_whole(none, heard);
        let (a, b) = choose|a: Seq<char>, b: Seq<char>|
            {
                &&& heard == #[trigger] (a + final_text(none, Some(heard)) + b)
                &&& blank(a)
                &&& blank(b)
            };
        if text::trimmed(heard).len() == 0 {
            assert(heard =~= a + b);
            assert forall|i: int| 0 <= i < heard.len() implies text::white_space(
                #[trigger] heard[i],
            ) by {
                if i < a.len() {
                    assert(heard[i] == a[i]);
                } else {
                    assert(heard[i] == b[i - a.len()]);
                }
            }
        }
    }
}

/// The buffer after some blocks came in.
pub open spec fn heard_all<S>(v: StreamView<S>, blocks: Seq<Seq<S>>) -> StreamView<S>
    decreases blocks.len(),
{
    if blocks.len() == 0 {
        v
    } else {
        heard_all(hear(v, blocks[0], false), blocks.drop_first())
    }
}

/// Up to a minute everything that is heard is kept for the decode, in order, and
/// an utterance is loud once any block of it was.
pub proof fn audio_is_kept_for_the_decode<S>(v: StreamView<S>, blocks: Seq<Seq<S>>)
    requires
        v.utterance.len() + blocks.flatten().len() <= 60 * WHISPER_SAMPLE_RATE,
    ensures
        heard_all(v, blocks).utterance == v.utterance + blocks.flatten(),
        heard_all(v, blocks).carried == v.carried,
        heard_all(v, blocks).loud == v.loud,
        forall|block: Seq<S>|
            (#[trigger] hear(v, block, true)).loud && hear(v, block, true).carried == v.carried
                && hear(v, block, true).speculative == v.speculative,
    decreases blocks.len(),
{
    if blocks.len() == 0 {
        assert(v.utterance + blocks.flatten() =~= v.utterance);
    } else {
        let next = hear(v, blocks[0], false);
        let rest = blocks.drop_first();
        if v.utterance.len() < UTTERANCE_CAP {
            audio_is_kept_for_the_decode(next, rest);
            assert(next.utterance + rest.flatten() =~= v.utterance + blocks.flatten());
        } else {
            assert(blocks.flatten().len() == 0);
            assert(v.utterance + blocks[0] =~= v.utterance);
            audio_is_kept_for_the_decode(next, rest);
            assert(next.utterance + rest.flatten() =~= v.utterance + blocks.flatten());
        }
    }
}

/// A hypothesis is shown exactly where it is new, says something and the audio
/// is loud; it is then the one on show, and not shown again.
pub proof fn new_words_are_shown_once<S>(v: StreamView<S>, heard: Seq<char>)
    ensures
        shows_partial(v, heard) <==> v.loud && heard.len() > 0 && heard != v.last_partial,
        shows_partial(v, heard) ==> after_partial(v, heard).last_partial == heard,
        !shows_partial(after_partial(v, heard), heard),
        after_partial(v, heard).utterance == v.utterance,
        after_partial(v, heard).loud == v.loud,
        after_partial(v, heard).carried == v.carried,
        !shows_partial(v, heard) ==> after_partial(v, heard) == v,
{
}

/// The strong model may start ahead of the endpoint exactly where words were
/// heard in loud audio, the speaker has paused, the model is there and no other
/// decode is under way.
pub proof fn decodes_start_once<S>(v: StreamView<S>, heard: Seq<char>, trailing: bool, ready: bool)
    ensures
        may_speculate(v, heard, trailing, ready) <==> heard.len() > 0 && v.loud && trailing && ready
            && !v.speculative,
        !may_speculate(StreamView { speculative: true, ..v }, heard, trailing, ready),
{
}

/// Only where two pipelines share a window is anything filtered: the
/// interviewer's feeds it and the user's reads it.
pub proof fn windows_are_shared_by_two(speaker: Seq<char>)
    ensures
        bleed_role(speaker, false) == BleedRole::Neither,
        bleed_role(speaker, true) == BleedRole::Reads <==> speaker == "me"@,
        bleed_role(speaker, true) == BleedRole::Feeds <==> speaker == "interviewer"@,
        gate_tenths("me"@) == 25,
        speaker != "me"@ ==> gate_tenths(speaker) == 10,
{
    reveal_strlit("me");
    reveal_strlit("interviewer");
    assert("me"@.len() == 2 && "interviewer"@.len() == 11);
}

} // verus!
