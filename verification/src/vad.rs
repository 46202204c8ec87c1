//! Cuts a stream of audio frames into utterances.
//!
//! Each frame is judged voice or silence. Voice opens a chunk, seeded with a
//! short lead-in; a stretch of silence, or the length cap, closes it.

use vstd::prelude::*;
use crate::samples;

verus! {

pub const FRAME_MS: usize = 30;

pub const SAMPLE_RATE_HZ: usize = 16_000;

/// One frame of audio.
pub const FRAME_SAMPLES: usize = 480;

/// How much audio before the first voiced frame goes in front of the chunk.
pub const PRE_SPEECH_PAD_MS: usize = 300;

/// How much consecutive silence after voice closes the chunk.
pub const POST_SPEECH_PAD_MS: usize = 500;

/// The shortest utterance worth transcribing, from its first voiced frame on:
/// what is shorter is a blip or a click. The lead-in does not count.
pub const MIN_CHUNK_MS: usize = 700;

/// The length at which a chunk closes even without a pause.
pub const MAX_CHUNK_MS: usize = 8_000;

pub const PRE_SPEECH_PAD_SAMPLES: usize = 4_800;

pub const POST_SPEECH_PAD_FRAMES: usize = 16;

pub const MIN_CHUNK_SAMPLES: usize = 11_200;

pub const MAX_CHUNK_SAMPLES: usize = 128_000;

/// Where the chunker stands in an utterance.
#[derive(Clone, Copy, Debug, PartialEq, Eq, Structural)]
pub enum Phase {
    /// No voice heard since the last chunk.
    Idle,
    /// The last frame was voice.
    InVoice,
    /// The last frames were silence: this many of them.
    TrailingSilence(usize),
}

/// What the caller does after a frame.
pub enum ChunkAction<S> {
    /// Nothing to send yet.
    Continue,
    /// The chunk is finished: transcribe it.
    Emit(Vec<S>),
}

/// The chunk that an action hands over.
pub open spec fn emitted<S>(action: ChunkAction<S>) -> Option<Seq<S>> {
    match action {
        ChunkAction::Continue => None,
        ChunkAction::Emit(chunk) => Some(chunk@),
    }
}

/// The state of a chunker.
#[verifier::ext_equal]
pub struct ChunkerView<S> {
    pub phase: Phase,
    /// The audio kept while idle.
    pub pre_roll: Seq<S>,
    /// The chunk that is being collected.
    pub chunk: Seq<S>,
    /// How many samples of the chunk stand before its first voiced frame.
    pub lead: nat,
}

/// The last `n` samples, or all of them where there are fewer.
pub open spec fn last_samples<S>(s: Seq<S>, n: int) -> Seq<S> {
    if s.len() > n {
        s.skip(s.len() - n)
    } else {
        s
    }
}

/// One frame through the chunker: the next state and the finished chunk, if
/// the frame finishes one.
pub open spec fn chunk_step<S>(v: ChunkerView<S>, frame: Seq<S>, is_voice: bool) -> (
    ChunkerView<S>,
    Option<Seq<S>>,
) {
    let idle = ChunkerView {
        phase: Phase::Idle,
        pre_roll: v.pre_roll,
        chunk: Seq::<S>::empty(),
        lead: 0,
    };
    let grown = ChunkerView { chunk: v.chunk + frame, ..v };
    match v.phase {
        Phase::Idle => {
            let recent = last_samples(v.pre_roll + frame, PRE_SPEECH_PAD_SAMPLES as int);
            if is_voice {
                (
                    ChunkerView {
                        phase: Phase::InVoice,
                        pre_roll: Seq::<S>::empty(),
                        chunk: recent,
                        lead: (recent.len() - frame.len()) as nat,
                    },
                    None,
                )
            } else {
                (ChunkerView { pre_roll: recent, ..v }, None)
            }
        },
        Phase::InVoice => {
            if grown.chunk.len() >= MAX_CHUNK_SAMPLES {
                (idle, Some(grown.chunk))
            } else if is_voice {
                (grown, None)
            } else {
                (ChunkerView { phase: Phase::TrailingSilence(1), ..grown }, None)
            }
        },
        Phase::TrailingSilence(n) => {
            if is_voice {
                (ChunkerView { phase: Phase::InVoice, ..grown }, None)
            } else if n >= POST_SPEECH_PAD_FRAMES {
                (
                    idle,
                    if grown.chunk.len() - v.lead >= MIN_CHUNK_SAMPLES {
                        Some(grown.chunk)
                    } else {
                        None
                    },
                )
            } else {
                (ChunkerView { phase: Phase::TrailingSilence((n + 1) as usize), ..grown }, None)
            }
        },
    }
}

impl<S> ChunkerView<S> {
    /// What holds of every chunker that started empty and was fed whole
    /// frames.
    pub open spec fn wf(self) -> bool {
        &&& self.pre_roll.len() <= PRE_SPEECH_PAD_SAMPLES
        &&& self.lead <= self.chunk.len()
        &&& self.lead <= PRE_SPEECH_PAD_SAMPLES - FRAME_SAMPLES
        &&& match self.phase {
            Phase::Idle => self.chunk.len() == 0,
            Phase::InVoice => self.pre_roll.len() == 0 && self.chunk.len() < MAX_CHUNK_SAMPLES
                + POST_SPEECH_PAD_FRAMES * FRAME_SAMPLES,
            Phase::TrailingSilence(n) => self.pre_roll.len() == 0 && 1 <= n
                <= POST_SPEECH_PAD_FRAMES && self.chunk.len() < MAX_CHUNK_SAMPLES + (n - 1)
                * FRAME_SAMPLES,
        }
    }

    /// The audio held is the end of all audio heard.
    pub open spec fn holds_end_of(self, heard: Seq<S>) -> bool {
        match self.phase {
            Phase::Idle => samples::ends_with(heard, self.pre_roll),
            _ => samples::ends_with(heard, self.chunk),
        }
    }
}

/// Feeding whole frames keeps the invariant. A chunk that comes out is never
/// shorter than the minimum, its lead-in left aside, and overshoots the cap by
/// no more than the trailing silence that may follow it.
pub proof fn chunks_are_bounded<S>(v: ChunkerView<S>, frame: Seq<S>, is_voice: bool)
    requires
        v.wf(),
        frame.len() == FRAME_SAMPLES,
    ensures
        chunk_step(v, frame, is_voice).0.wf(),
        chunk_step(v, frame, is_voice).1 matches Some(chunk) ==> MIN_CHUNK_SAMPLES + v.lead
            <= chunk.len() < MAX_CHUNK_SAMPLES + (POST_SPEECH_PAD_FRAMES + 1) * FRAME_SAMPLES,
{
}

/// Nothing is dropped or reordered inside an utterance: what the chunker holds
/// is always the end of what it heard, and a chunk that comes out ends with
/// the frame that finished it.
pub proof fn chunks_are_recent_audio<S>(
    v: ChunkerView<S>,
    heard: Seq<S>,
    frame: Seq<S>,
    is_voice: bool,
)
    requires
        v.wf(),
        v.holds_end_of(heard),
        frame.len() == FRAME_SAMPLES,
    ensures
        ({
            let (next, out) = chunk_step(v, frame, is_voice);
            &&& next.holds_end_of(heard + frame)
            &&& out matches Some(chunk) ==> samples::ends_with(heard + frame, chunk)
        }),
{
    let now = heard + frame;
    let (next, out) = chunk_step(v, frame, is_voice);
    if let Phase::Idle = v.phase {
        let all = v.pre_roll + frame;
        assert(now.skip(now.len() - all.len()) =~= all);
        let lead = last_samples(all, PRE_SPEECH_PAD_SAMPLES as int);
        assert(now.skip(now.len() - lead.len()) =~= lead);
    } else {
        let grown = v.chunk + frame;
        assert(now.skip(now.len() - grown.len()) =~= grown);
        assert(now.skip(now.len() as int) =~= v.pre_roll);
    }
}

/// Once the speaker falls silent for good, the utterance closes: after a
/// trailing silence of `n` frames, that many more silent frames return the
/// chunker to idle.
pub proof fn silence_closes_the_chunk<S>(v: ChunkerView<S>, frames: Seq<Seq<S>>)
    requires
        v.wf(),
        forall|i: int| 0 <= i < frames.len() ==> #[trigger] frames[i].len() == FRAME_SAMPLES,
        v.phase matches Phase::TrailingSilence(n) ==> frames.len() == POST_SPEECH_PAD_FRAMES - n
            + 1,
        !(v.phase is TrailingSilence) ==> frames.len() == POST_SPEECH_PAD_FRAMES + 1,
    ensures
        after_silence(v, frames).phase is Idle,
    decreases frames.len(),
{
    let next = chunk_step(v, frames[0], false).0;
    chunks_are_bounded(v, frames[0], false);
    if next.phase is Idle {
        lemma_silence_keeps_idle(next, frames.drop_first());
    } else {
        assert forall|i: int| 0 <= i < frames.drop_first().len() implies #[trigger] frames.drop_first()[i].len()
            == FRAME_SAMPLES by {
            assert(frames.drop_first()[i] == frames[i + 1]);
        }
        silence_closes_the_chunk(next, frames.drop_first());
    }
}

proof fn lemma_silence_keeps_idle<S>(v: ChunkerView<S>, frames: Seq<Seq<S>>)
    requires
        v.phase is Idle,
    ensures
        after_silence(v, frames).phase is Idle,
    decreases frames.len(),
{
    if frames.len() > 0 {
        lemma_silence_keeps_idle(chunk_step(v, frames[0], false).0, frames.drop_first());
    }
}

/// The state after a run of silent frames.
pub open spec fn after_silence<S>(v: ChunkerView<S>, frames: Seq<Seq<S>>) -> ChunkerView<S>
    decreases frames.len(),
{
    if frames.len() == 0 {
        v
    } else {
        after_silence(chunk_step(v, frames[0], false).0, frames.drop_first())
    }
}

/// Nothing comes out while these frames pass in silence.
pub open spec fn stays_quiet<S>(v: ChunkerView<S>, frames: Seq<Seq<S>>) -> bool
    decreases frames.len(),
{
    frames.len() == 0 || {
        let (next, out) = chunk_step(v, frames[0], false);
        out is None && stays_quiet(next, frames.drop_first())
    }
}

/// Blips and clicks are filtered out: an utterance that falls silent too soon
/// is discarded, however much lead-in stands before it.
pub proof fn blips_are_discarded<S>(v: ChunkerView<S>, frames: Seq<Seq<S>>)
    requires
        v.wf(),
        forall|i: int| 0 <= i < frames.len() ==> #[trigger] frames[i].len() == FRAME_SAMPLES,
        v.phase is Idle || v.chunk.len() - v.lead + frames.len() * FRAME_SAMPLES
            < MIN_CHUNK_SAMPLES,
    ensures
        stays_quiet(v, frames),
    decreases frames.len(),
{
    if frames.len() > 0 {
        let rest = frames.drop_first();
        chunks_are_bounded(v, frames[0], false);
        assert forall|i: int| 0 <= i < rest.len() implies #[trigger] rest[i].len()
            == FRAME_SAMPLES by {
            assert(rest[i] == frames[i + 1]);
        }
        blips_are_discarded(chunk_step(v, frames[0], false).0, rest);
    }
}

/// The sizes in samples are the times that they are named after.
pub proof fn sizes_follow_the_times()
    ensures
        FRAME_SAMPLES * 1000 == SAMPLE_RATE_HZ * FRAME_MS,
        PRE_SPEECH_PAD_SAMPLES * 1000 == SAMPLE_RATE_HZ * PRE_SPEECH_PAD_MS,
        MIN_CHUNK_SAMPLES * 1000 == SAMPLE_RATE_HZ * MIN_CHUNK_MS,
        MAX_CHUNK_SAMPLES * 1000 == SAMPLE_RATE_HZ * MAX_CHUNK_MS,
        POST_SPEECH_PAD_FRAMES * FRAME_MS <= POST_SPEECH_PAD_MS < (POST_SPEECH_PAD_FRAMES + 1)
            * FRAME_MS,
        (FRAME_MS, SAMPLE_RATE_HZ) == (30usize, 16_000usize),
        (PRE_SPEECH_PAD_MS, POST_SPEECH_PAD_MS) == (300usize, 500usize),
        (MIN_CHUNK_MS, MAX_CHUNK_MS) == (700usize, 8_000usize),
{
}

/// While nobody speaks only the last stretch of audio is kept, as much of it as
/// a lead-in takes. The first voiced frame opens a chunk that starts with that
/// stretch and ends with the frame.
pub proof fn voice_opens_a_chunk_with_its_lead_in<S>(v: ChunkerView<S>, frame: Seq<S>)
    requires
        v.wf(),
        v.phase is Idle,
        frame.len() == FRAME_SAMPLES,
    ensures
        ({
            let heard = v.pre_roll + frame;
            let kept = if heard.len() > PRE_SPEECH_PAD_SAMPLES {
                PRE_SPEECH_PAD_SAMPLES as int
            } else {
                heard.len() as int
            };
            let (opened, out1) = chunk_step(v, frame, true);
            let (quiet, out2) = chunk_step(v, frame, false);
            &&& out1 is None && out2 is None
            &&& opened.phase is InVoice && quiet.phase is Idle
            &&& opened.chunk == heard.skip(heard.len() - kept)
            &&& opened.lead + frame.len() == opened.chunk.len()
            &&& opened.pre_roll.len() == 0
            &&& quiet.pre_roll == heard.skip(heard.len() - kept)
            &&& quiet.chunk.len() == 0
        }),
{
    let heard = v.pre_roll + frame;
    assert(heard.skip(0) =~= heard);
}

/// Inside an utterance every frame is added to the chunk. When a frame closes
/// it, the chunk comes out whole exactly where it is long enough without its
/// lead-in.
pub proof fn nothing_is_dropped_inside_an_utterance<S>(
    v: ChunkerView<S>,
    frame: Seq<S>,
    is_voice: bool,
)
    requires
        v.wf(),
        !(v.phase is Idle),
        frame.len() == FRAME_SAMPLES,
    ensures
        ({
            let (next, out) = chunk_step(v, frame, is_voice);
            let whole = v.chunk + frame;
            if next.phase is Idle {
                &&& out == (if whole.len() - v.lead >= MIN_CHUNK_SAMPLES {
                    Some(whole)
                } else {
                    None
                })
                &&& next.pre_roll.len() == 0
            } else {
                &&& out is None
                &&& next.chunk == whole
                &&& next.lead == v.lead
                &&& is_voice <==> next.phase is InVoice
            }
        }),
{
}

/// What closes an utterance: the cap while the speaker talks, and otherwise only
/// a pause that has lasted.
pub proof fn only_the_cap_or_a_pause_closes_an_utterance<S>(
    v: ChunkerView<S>,
    frame: Seq<S>,
    is_voice: bool,
)
    requires
        v.wf(),
        frame.len() == FRAME_SAMPLES,
    ensures
        ({
            let next = chunk_step(v, frame, is_voice).0;
            match v.phase {
                Phase::Idle => next.phase is Idle <==> !is_voice,
                Phase::InVoice => {
                    &&& next.phase is Idle <==> v.chunk.len() + FRAME_SAMPLES >= MAX_CHUNK_SAMPLES
                    &&& !(next.phase is Idle) && !is_voice ==> next.phase
                        == Phase::TrailingSilence(1)
                },
                Phase::TrailingSilence(n) => {
                    &&& next.phase is Idle <==> !is_voice && (n + 1) * FRAME_MS
                        > POST_SPEECH_PAD_MS
                    &&& !(next.phase is Idle) && !is_voice ==> next.phase
                        == Phase::TrailingSilence((n + 1) as usize)
                },
            }
        }),
{
}

/// Speech is not lost: whatever silent frames close an utterance, if it is long
/// enough from its first voiced frame on, the frame that closes it hands out
/// everything that was collected.
pub proof fn utterances_come_out_whole<S>(v: ChunkerView<S>, frames: Seq<Seq<S>>)
    requires
        v.wf(),
        !(v.phase is Idle),
        frames.len() > 0,
        forall|i: int| 0 <= i < frames.len() ==> #[trigger] frames[i].len() == FRAME_SAMPLES,
        !(after_silence(v, frames.drop_last()).phase is Idle),
        after_silence(v, frames).phase is Idle,
        v.chunk.len() - v.lead + frames.len() * FRAME_SAMPLES >= MIN_CHUNK_SAMPLES,
    ensures
        chunk_step(after_silence(v, frames.drop_last()), frames.last(), false).1 == Some(
            v.chunk + frames.flatten(),
        ),
    decreases frames.len(),
{
    let next = chunk_step(v, frames[0], false).0;
    chunks_are_bounded(v, frames[0], false);
    if frames.len() == 1 {
        frames.lemma_flatten_one_element();
        assert(frames.drop_first() =~= Seq::<Seq<S>>::empty());
        assert(frames.drop_last() =~= Seq::<Seq<S>>::empty());
    } else {
        let rest = frames.drop_first();
        assert(rest.drop_last() =~= frames.drop_last().drop_first());
        assert(frames.drop_last()[0] == frames[0]);
        if next.phase is Idle {
            lemma_silence_keeps_idle(next, rest.drop_last());
        }
        assert forall|i: int| 0 <= i < rest.len() implies #[trigger] rest[i].len()
            == FRAME_SAMPLES by {
            assert(rest[i] == frames[i + 1]);
        }
        utterances_come_out_whole(next, rest);
        assert(rest.last() == frames.last());
        assert(v.chunk + frames.flatten() =~= next.chunk + rest.flatten());
    }
}

/// A pause that is too short closes nothing: the speaker who goes on is still in
/// the same utterance, pause included.
pub proof fn short_pauses_stay_in_the_utterance<S>(v: ChunkerView<S>, frames: Seq<Seq<S>>)
    requires
        v.wf(),
        v.phase is InVoice,
        frames.len() * FRAME_MS <= POST_SPEECH_PAD_MS,
        v.chunk.len() + FRAME_SAMPLES < MAX_CHUNK_SAMPLES,
        forall|i: int| 0 <= i < frames.len() ==> #[trigger] frames[i].len() == FRAME_SAMPLES,
    ensures
        !(after_silence(v, frames).phase is Idle),
        after_silence(v, frames).chunk == v.chunk + frames.flatten(),
        after_silence(v, frames).lead == v.lead,
        stays_quiet(v, frames),
{
    if frames.len() == 0 {
        assert(v.chunk + frames.flatten() =~= v.chunk);
    } else {
        let next = chunk_step(v, frames[0], false).0;
        let rest = frames.drop_first();
        chunks_are_bounded(v, frames[0], false);
        assert forall|i: int| 0 <= i < rest.len() implies #[trigger] rest[i].len()
            == FRAME_SAMPLES by {
            assert(rest[i] == frames[i + 1]);
        }
        lemma_pause_goes_on(next, rest);
        assert(v.chunk + frames.flatten() =~= next.chunk + rest.flatten());
    }
}

proof fn lemma_pause_goes_on<S>(v: ChunkerView<S>, frames: Seq<Seq<S>>)
    requires
        v.wf(),
        v.phase matches Phase::TrailingSilence(n) && n + frames.len() <= POST_SPEECH_PAD_FRAMES,
        forall|i: int| 0 <= i < frames.len() ==> #[trigger] frames[i].len() == FRAME_SAMPLES,
    ensures
        after_silence(v, frames).wf(),
        v.phase matches Phase::TrailingSilence(n) && after_silence(v, frames).phase
            == Phase::TrailingSilence((n + frames.len()) as usize),
        after_silence(v, frames).chunk == v.chunk + frames.flatten(),
        after_silence(v, frames).lead == v.lead,
        stays_quiet(v, frames),
    decreases frames.len(),
{
    if frames.len() == 0 {
        assert(v.chunk + frames.flatten() =~= v.chunk);
    } else {
        let next = chunk_step(v, frames[0], false).0;
        let rest = frames.drop_first();
        chunks_are_bounded(v, frames[0], false);
        assert forall|i: int| 0 <= i < rest.len() implies #[trigger] rest[i].len()
            == FRAME_SAMPLES by {
            assert(rest[i] == frames[i + 1]);
        }
        lemma_pause_goes_on(next, rest);
        assert(v.chunk + frames.flatten() =~= next.chunk + rest.flatten());
    }
}

/// A pause hands out the utterance: once the speaker has been silent for just
/// over half a second, all that was collected comes out, lead-in and pause
/// included, however long it is, as long as it is no blip.
pub proof fn a_pause_hands_out_the_utterance<S>(v: ChunkerView<S>, frames: Seq<Seq<S>>)
    requires
        v.wf(),
        v.phase is InVoice,
        (frames.len() - 1) * FRAME_MS <= POST_SPEECH_PAD_MS < frames.len() * FRAME_MS,
        v.chunk.len() + FRAME_SAMPLES < MAX_CHUNK_SAMPLES,
        v.chunk.len() - v.lead + frames.len() * FRAME_SAMPLES >= MIN_CHUNK_SAMPLES,
        forall|i: int| 0 <= i < frames.len() ==> #[trigger] frames[i].len() == FRAME_SAMPLES,
    ensures
        stays_quiet(v, frames.drop_last()),
        chunk_step(after_silence(v, frames.drop_last()), frames.last(), false).1 == Some(
            v.chunk + frames.flatten(),
        ),
        chunk_step(after_silence(v, frames.drop_last()), frames.last(), false).0.phase is Idle,
{
    let before = frames.drop_last();
    assert forall|i: int| 0 <= i < before.len() implies #[trigger] before[i].len()
        == FRAME_SAMPLES by {
        assert(before[i] == frames[i]);
    }
    short_pauses_stay_in_the_utterance(v, before);
    let first = chunk_step(v, before[0], false).0;
    let rest = before.drop_first();
    chunks_are_bounded(v, before[0], false);
    assert forall|i: int| 0 <= i < rest.len() implies #[trigger] rest[i].len()
        == FRAME_SAMPLES by {
        assert(rest[i] == before[i + 1]);
    }
    lemma_pause_goes_on(first, rest);
    frames.lemma_flatten_and_flatten_alt_are_equivalent();
    before.lemma_flatten_and_flatten_alt_are_equivalent();
    let waiting = after_silence(v, before);
    assert(frames[frames.len() - 1].len() == FRAME_SAMPLES);
    assert(waiting.chunk + frames.last() =~= v.chunk + frames.flatten());
    lemma_flat_len(before);
}

proof fn lemma_flat_len<S>(frames: Seq<Seq<S>>)
    requires
        forall|i: int| 0 <= i < frames.len() ==> #[trigger] frames[i].len() == FRAME_SAMPLES,
    ensures
        frames.flatten().len() == frames.len() * FRAME_SAMPLES,
    decreases frames.len(),
{
    if frames.len() > 0 {
        let rest = frames.drop_first();
        assert forall|i: int| 0 <= i < rest.len() implies #[trigger] rest[i].len()
            == FRAME_SAMPLES by {
            assert(rest[i] == frames[i + 1]);
        }
        lemma_flat_len(rest);
        assert(frames[0].len() == FRAME_SAMPLES);
    }
}

/// A frame and whether it was judged voice.
pub struct Judged<S> {
    pub frame: Seq<S>,
    pub is_voice: bool,
}

/// A chunker that has heard nothing.
pub open spec fn unheard<S>() -> ChunkerView<S> {
    ChunkerView {
        phase: Phase::Idle,
        pre_roll: Seq::<S>::empty(),
        chunk: Seq::<S>::empty(),
        lead: 0,
    }
}

/// The chunker after these frames.
pub open spec fn state_after<S>(frames: Seq<Judged<S>>) -> ChunkerView<S>
    decreases frames.len(),
{
    if frames.len() == 0 {
        unheard()
    } else {
        chunk_step(state_after(frames.drop_last()), frames.last().frame, frames.last().is_voice).0
    }
}

/// The chunk that comes out with the frame at `i`.
pub open spec fn chunk_at<S>(frames: Seq<Judged<S>>, i: int) -> Option<Seq<S>> {
    chunk_step(state_after(frames.take(i)), frames[i].frame, frames[i].is_voice).1
}

/// All samples of these frames.
pub open spec fn samples_of<S>(frames: Seq<Judged<S>>) -> Seq<S>
    decreases frames.len(),
{
    if frames.len() == 0 {
        Seq::empty()
    } else {
        samples_of(frames.drop_last()) + frames.last().frame
    }
}

/// All chunks that came out with these frames, joined.
pub open spec fn chunks_of<S>(frames: Seq<Judged<S>>) -> Seq<S>
    decreases frames.len(),
{
    if frames.len() == 0 {
        Seq::empty()
    } else {
        chunks_of(frames.drop_last()) + (match chunk_at(frames, frames.len() - 1) {
            Some(chunk) => chunk,
            None => Seq::empty(),
        })
    }
}

/// Every frame is whole.
pub open spec fn whole_frames<S>(frames: Seq<Judged<S>>) -> bool {
    forall|i: int| 0 <= i < frames.len() ==> (#[trigger] frames[i]).frame.len() == FRAME_SAMPLES
}

/// The audio that a chunker holds.
pub open spec fn held<S>(v: ChunkerView<S>) -> Seq<S> {
    match v.phase {
        Phase::Idle => v.pre_roll,
        _ => v.chunk,
    }
}

proof fn lemma_run<S>(frames: Seq<Judged<S>>)
    requires
        whole_frames(frames),
    ensures
        state_after(frames).wf(),
        state_after(frames).holds_end_of(samples_of(frames)),
        samples_of(frames).len() == frames.len() * FRAME_SAMPLES,
        forall|i: int|
            0 <= i < frames.len() && #[trigger] chunk_at(frames, i) is Some ==> held(
                state_after(frames),
            ).len() <= (frames.len() - 1 - i) * FRAME_SAMPLES,
    decreases frames.len(),
{
    let n = frames.len() as int;
    if n == 0 {
        assert(samples_of(frames).skip(0) =~= Seq::<S>::empty());
    } else {
        let before = frames.drop_last();
        let last = frames.last();
        assert(before =~= frames.take(n - 1));
        lemma_whole_start(frames, n - 1);
        lemma_run(before);
        assert(last == frames[n - 1]);
        let v = state_after(before);
        chunks_are_bounded(v, last.frame, last.is_voice);
        chunks_are_recent_audio(v, samples_of(before), last.frame, last.is_voice);
        assert(frames.take(n - 1) =~= before);
        assert forall|i: int| 0 <= i < n && #[trigger] chunk_at(frames, i) is Some implies held(
            state_after(frames),
        ).len() <= (n - 1 - i) * FRAME_SAMPLES by {
            if i < n - 1 {
                assert(before.take(i) =~= frames.take(i));
                assert(before[i] == frames[i]);
                assert(chunk_at(before, i) is Some);
            }
        }
    }
}

proof fn lemma_whole_start<S>(frames: Seq<Judged<S>>, k: int)
    requires
        whole_frames(frames),
        0 <= k <= frames.len(),
    ensures
        whole_frames(frames.take(k)),
{
    assert forall|i: int| 0 <= i < k implies (#[trigger] frames.take(k)[i]).frame.len()
        == FRAME_SAMPLES by {
        assert(frames.take(k)[i] == frames[i]);
    }
}

/// A chunk that comes out is the end of all that was heard, leaves the chunker
/// idle, and shares no sample with an earlier chunk: it is no longer than the
/// audio since that one came out.
pub proof fn chunks_share_no_sample<S>(frames: Seq<Judged<S>>, j: int)
    requires
        whole_frames(frames),
        0 <= j < frames.len(),
        chunk_at(frames, j) is Some,
    ensures
        samples::ends_with(samples_of(frames.take(j + 1)), chunk_at(frames, j)->0),
        chunk_at(frames, j)->0.len() >= MIN_CHUNK_SAMPLES,
        state_after(frames.take(j + 1)).phase is Idle,
        forall|i: int|
            0 <= i < j && #[trigger] chunk_at(frames, i) is Some ==> chunk_at(frames, j)->0.len()
                <= samples_of(frames.take(j + 1)).len() - samples_of(frames.take(i + 1)).len(),
{
    let upto = frames.take(j + 1);
    let before = frames.take(j);
    assert(upto.drop_last() =~= before);
    assert(upto.last() == frames[j]);
    lemma_whole_start(frames, j);
    lemma_whole_start(frames, j + 1);
    lemma_run(before);
    lemma_run(upto);
    let v = state_after(before);
    chunks_are_bounded(v, frames[j].frame, frames[j].is_voice);
    chunks_are_recent_audio(v, samples_of(before), frames[j].frame, frames[j].is_voice);
    assert forall|i: int| 0 <= i < j && #[trigger] chunk_at(frames, i) is Some implies chunk_at(
        frames,
        j,
    )->0.len() <= samples_of(upto).len() - samples_of(frames.take(i + 1)).len() by {
        lemma_whole_start(frames, i + 1);
        lemma_run(frames.take(i + 1));
        assert(before.take(i) =~= frames.take(i));
        assert(before[i] == frames[i]);
        assert(chunk_at(before, i) is Some);
    }
}

/// How many frames of unbroken voice fill a chunk.
pub const FRAMES_PER_FULL_CHUNK: usize = 267;

/// Unbroken voice loses nothing at the cap: a full chunk comes out with every
/// so many frames and with no other, and the chunks joined, with what is still
/// held, are all that was heard.
pub proof fn nothing_is_lost_at_the_cap<S>(frames: Seq<Judged<S>>)
    requires
        whole_frames(frames),
        forall|i: int| 0 <= i < frames.len() ==> (#[trigger] frames[i]).is_voice,
    ensures
        chunks_of(frames) + held(state_after(frames)) == samples_of(frames),
        held(state_after(frames)).len() == (frames.len() % FRAMES_PER_FULL_CHUNK as nat)
            * FRAME_SAMPLES,
        state_after(frames).phase is Idle <==> frames.len() % FRAMES_PER_FULL_CHUNK as nat == 0,
        frames.len() > 0 ==> (chunk_at(frames, frames.len() - 1) is Some <==> frames.len()
            % FRAMES_PER_FULL_CHUNK as nat == 0),
        frames.len() > 0 ==> (chunk_at(frames, frames.len() - 1) matches Some(chunk)
            ==> chunk.len() == FRAMES_PER_FULL_CHUNK * FRAME_SAMPLES),
    decreases frames.len(),
{
    let n = frames.len();
    if n == 0 {
        assert(chunks_of(frames) + held(state_after(frames)) =~= samples_of(frames));
    } else {
        let before = frames.drop_last();
        let last = frames.last();
        assert(last == frames[n - 1]);
        assert forall|i: int| 0 <= i < before.len() implies (#[trigger] before[i]).frame.len()
            == FRAME_SAMPLES && before[i].is_voice by {
            assert(before[i] == frames[i]);
        }
        nothing_is_lost_at_the_cap(before);
        lemma_run(before);
        assert(frames.take(n - 1) =~= before);
        let v = state_after(before);
        let next = state_after(frames);
        assert(v.phase is Idle || v.phase is InVoice);
        match chunk_at(frames, n - 1) {
            Some(chunk) => {
                assert(chunk =~= held(v) + last.frame);
                assert(chunks_of(frames) + held(next) =~= samples_of(frames));
            },
            None => {
                assert(held(next) =~= held(v) + last.frame);
                assert(chunks_of(frames) =~= chunks_of(before));
                assert(chunks_of(frames) + held(next) =~= samples_of(frames));
            },
        }
    }
}

/// The chunker proper: it is told of each frame whether it is voice.
pub struct Chunker<S> {
    phase: Phase,
    pre_roll: Vec<S>,
    chunk: Vec<S>,
    lead: usize,
}

impl<S> View for Chunker<S> {
    type V = ChunkerView<S>;

    closed spec fn view(&self) -> ChunkerView<S> {
        ChunkerView {
            phase: self.phase,
            pre_roll: self.pre_roll@,
            chunk: self.chunk@,
            lead: self.lead as nat,
        }
    }
}

impl<S: Copy> Chunker<S> {
    pub fn new() -> (r: Self)
        ensures
            r@ == unheard::<S>(),
            r@.wf(),
    {
        Chunker { phase: Phase::Idle, pre_roll: Vec::new(), chunk: Vec::new(), lead: 0 }
    }

    /// Inside an utterance: voice was heard and the chunk is not out yet.
    pub fn in_speech(&self) -> (r: bool)
        ensures
            r == !(self@.phase is Idle),
    {
        match self.phase {
            Phase::Idle => false,
            _ => true,
        }
    }

    /// Feed one frame that was judged voice or silence.
    pub fn step(&mut self, frame: &[S], is_voice: bool) -> (action: ChunkAction<S>)
        requires
            old(self)@.wf(),
            frame@.len() == FRAME_SAMPLES,
        ensures
            (final(self)@, emitted(action)) == chunk_step(old(self)@, frame@, is_voice),
            final(self)@.wf(),
    {
        proof {
            chunks_are_bounded(self@, frame@, is_voice);
        }
        let ghost target = chunk_step(self@, frame@, is_voice);
        match self.phase {
            Phase::Idle => {
                samples::push_all(&mut self.pre_roll, frame);
                if self.pre_roll.len() > PRE_SPEECH_PAD_SAMPLES {
                    let excess: usize = self.pre_roll.len() - PRE_SPEECH_PAD_SAMPLES;
                    samples::take_front(&mut self.pre_roll, excess);
                }
                if is_voice {
                    self.chunk = samples::take_all(&mut self.pre_roll);
                    self.lead = self.chunk.len() - FRAME_SAMPLES;
                    self.phase = Phase::InVoice;
                }
                assert(self@ =~= target.0);
                ChunkAction::Continue
            },
            Phase::InVoice => {
                samples::push_all(&mut self.chunk, frame);
                if self.chunk.len() >= MAX_CHUNK_SAMPLES {
                    self.phase = Phase::Idle;
                    self.lead = 0;
                    let done = samples::take_all(&mut self.chunk);
                    assert(self@ =~= target.0);
                    return ChunkAction::Emit(done);
                }
                if !is_voice {
                    self.phase = Phase::TrailingSilence(1);
                }
                assert(self@ =~= target.0);
                ChunkAction::Continue
            },
            Phase::TrailingSilence(n) => {
                samples::push_all(&mut self.chunk, frame);
                if is_voice {
                    self.phase = Phase::InVoice;
                    assert(self@ =~= target.0);
                    return ChunkAction::Continue;
                }
                if n >= POST_SPEECH_PAD_FRAMES {
                    self.phase = Phase::Idle;
                    let lead: usize = self.lead;
                    self.lead = 0;
                    let done = samples::take_all(&mut self.chunk);
                    assert(self@ =~= target.0);
                    if done.len() - lead >= MIN_CHUNK_SAMPLES {
                        return ChunkAction::Emit(done);
                    }
                    return ChunkAction::Continue;
                }
                self.phase = Phase::TrailingSilence(n + 1);
                assert(self@ =~= target.0);
                ChunkAction::Continue
            },
        }
    }
}

/// The voice detector of the `webrtc-vad` crate.
#[verifier::external_type_specification]
#[verifier::external_body]
pub struct ExVad(webrtc_vad::Vad);

/// The frames that a detector has listened to since it was opened, in order.
pub uninterp spec fn frames_heard(vad: webrtc_vad::Vad) -> Seq<Seq<i16>>;

/// Whether a detector for 16 kHz audio in the aggressive mode, once it has
/// listened to these frames, takes the last of them for voice.
pub uninterp spec fn voice_after(frames: Seq<Seq<i16>>) -> bool;

/// Whether a frame has a length that the detector can judge: 10, 20 or 30 ms.
pub open spec fn judgeable(pcm: Seq<i16>) -> bool {
    pcm.len() == 160 || pcm.len() == 320 || pcm.len() == 480
}

/// `webrtc_vad::Vad::new_with_rate_and_mode` for 16 kHz audio in the
/// aggressive mode, which reports voice less readily. Claims that the detector
/// has heard nothing yet. Every detector here is opened this way.
#[verifier::external_body]
fn open_detector() -> (r: webrtc_vad::Vad)
    ensures
        frames_heard(r) == Seq::<Seq<i16>>::empty(),
{
    webrtc_vad::Vad::new_with_rate_and_mode(
        webrtc_vad::SampleRate::Rate16kHz,
        webrtc_vad::VadMode::Aggressive,
    )
}

/// `webrtc_vad::Vad::is_voice_segment`. The detector adapts to what it hears:
/// its state is set when it is opened and changed by frames alone. Claims that
/// it judges every frame of a fitting length and no other, and that its answer
/// depends on the frames heard so far, this one included. It indexes the first
/// sample: the frame must not be empty.
#[verifier::external_body]
fn hear(vad: &mut webrtc_vad::Vad, pcm: &[i16]) -> (r: Result<bool, ()>)
    requires
        pcm@.len() > 0,
    ensures
        frames_heard(*final(vad)) == frames_heard(*old(vad)).push(pcm@),
        r is Ok <==> judgeable(pcm@),
        r matches Ok(voice) ==> voice == voice_after(frames_heard(*old(vad)).push(pcm@)),
{
    vad.is_voice_segment(pcm)
}

/// A chunker with its own voice detector.
pub struct VadChunker<S> {
    vad: webrtc_vad::Vad,
    chunker: Chunker<S>,
}

impl<S> View for VadChunker<S> {
    type V = ChunkerView<S>;

    closed spec fn view(&self) -> ChunkerView<S> {
        self.chunker@
    }
}

impl<S: Copy> VadChunker<S> {
    /// The frames that its detector has listened to.
    pub closed spec fn heard(&self) -> Seq<Seq<i16>> {
        frames_heard(self.vad)
    }

    pub fn new() -> (r: Self)
        ensures
            r.heard() == Seq::<Seq<i16>>::empty(),
            r@ == unheard::<S>(),
            r@.wf(),
    {
        VadChunker { vad: open_detector(), chunker: Chunker::new() }
    }

    /// Inside an utterance: voice was heard and the chunk is not out yet.
    pub fn in_speech(&self) -> (r: bool)
        ensures
            r == !(self@.phase is Idle),
    {
        self.chunker.in_speech()
    }

    /// Feed one frame, both as the samples to collect and as the 16-bit PCM
    /// that the detector listens to: it decides whether the frame is voice.
    pub fn push_frame(&mut self, frame: &[S], pcm: &[i16]) -> (action: ChunkAction<S>)
        requires
            old(self)@.wf(),
            frame@.len() == FRAME_SAMPLES,
            pcm@.len() == FRAME_SAMPLES,
        ensures
            (final(self)@, emitted(action)) == chunk_step(
                old(self)@,
                frame@,
                voice_after(old(self).heard().push(pcm@)),
            ),
            final(self).heard() == old(self).heard().push(pcm@),
            final(self)@.wf(),
    {
        let is_voice = match hear(&mut self.vad, pcm) {
            Ok(voice) => voice,
            Err(_) => false,
        };
        self.chunker.step(frame, is_voice)
    }
}

} // verus!
