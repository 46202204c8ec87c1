//! Echo cancellation for dual capture: aligns the reference and the microphone
//! to the frames that an engine works on, and makes sure that the microphone
//! is never lost where the engine gives nothing.

use vstd::prelude::*;
use crate::samples;
use crate::samples::FrameBuffer;
use crate::text;

verus! {

/// The engines that can cancel the echo.
#[derive(Clone, Copy, Debug, PartialEq, Eq, Structural)]
pub enum AecEngine {
    /// A linear filter with a suppressor, after WebRTC.
    Aec3,
    /// A learned model, which keeps the user's voice when both talk.
    Dtln,
}

/// The engines to try, in order: the learned one first where the setting asks
/// for it. The first that starts is used.
pub fn engines_to_try(setting: Option<&str>) -> (r: Vec<AecEngine>)
    ensures
        r@ == (if setting is Some && setting->0@ == "dtln"@ {
            seq![AecEngine::Dtln, AecEngine::Aec3]
        } else {
            seq![AecEngine::Aec3]
        }),
{
    let mut out: Vec<AecEngine> = Vec::new();
    if let Some(name) = setting {
        if text::same(name, "dtln") {
            out.push(AecEngine::Dtln);
        }
    }
    out.push(AecEngine::Aec3);
    assert(out@ =~= (if setting is Some && setting->0@ == "dtln"@ {
        seq![AecEngine::Dtln, AecEngine::Aec3]
    } else {
        seq![AecEngine::Aec3]
    }));
    out
}

/// Samples in the ten milliseconds that the engine takes at a time.
pub const AEC_FRAME_SAMPLES: usize = 160;

/// What the engine gave for each microphone frame, or the frame as it came
/// where it gave nothing.
pub open spec fn cleaned<S>(raw: Seq<Vec<S>>, out: Seq<Option<Vec<S>>>) -> Seq<S>
    decreases raw.len(),
{
    if raw.len() == 0 || raw.len() != out.len() {
        seq![]
    } else {
        cleaned(raw.drop_last(), out.drop_last()) + (match out.last() {
            Some(frame) => frame@,
            None => raw.last()@,
        })
    }
}

/// Frames the two signals for an engine.
pub struct Aec3Canceller<S> {
    render: FrameBuffer<S>,
    capture: FrameBuffer<S>,
}

impl<S: Copy> Aec3Canceller<S> {
    pub closed spec fn wf(self) -> bool {
        self.render.frame_size() == AEC_FRAME_SAMPLES && self.capture.frame_size()
            == AEC_FRAME_SAMPLES
    }

    /// Reference samples that wait for a whole frame.
    pub closed spec fn render_pending(self) -> Seq<S> {
        self.render@
    }

    /// Microphone samples that wait for a whole frame.
    pub closed spec fn capture_pending(self) -> Seq<S> {
        self.capture@
    }

    pub fn new() -> (r: Self)
        ensures
            r.wf(),
            r.render_pending() == Seq::<S>::empty(),
            r.capture_pending() == Seq::<S>::empty(),
    {
        Aec3Canceller {
            render: FrameBuffer::new(AEC_FRAME_SAMPLES),
            capture: FrameBuffer::new(AEC_FRAME_SAMPLES),
        }
    }

    /// Takes in reference audio and gives the whole frames for the engine.
    pub fn push_reference(&mut self, block: &[S]) -> (frames: Vec<Vec<S>>)
        requires
            old(self).wf(),
        ensures
            final(self).wf(),
            final(self).capture_pending() == old(self).capture_pending(),
            samples::laid_out(frames@) + final(self).render_pending() == old(
                self,
            ).render_pending() + block@,
            final(self).render_pending().len() < AEC_FRAME_SAMPLES,
            forall|i: int|
                0 <= i < frames@.len() ==> #[trigger] frames@[i]@.len() == AEC_FRAME_SAMPLES,
    {
        self.render.push_framed(block)
    }

    /// Takes in microphone audio and gives the whole frames for the engine.
    /// What does not fill a frame waits for the next call.
    pub fn push_capture(&mut self, block: &[S]) -> (frames: Vec<Vec<S>>)
        requires
            old(self).wf(),
        ensures
            final(self).wf(),
            final(self).render_pending() == old(self).render_pending(),
            samples::laid_out(frames@) + final(self).capture_pending() == old(
                self,
            ).capture_pending() + block@,
            final(self).capture_pending().len() < AEC_FRAME_SAMPLES,
            forall|i: int|
                0 <= i < frames@.len() ==> #[trigger] frames@[i]@.len() == AEC_FRAME_SAMPLES,
    {
        self.capture.push_framed(block)
    }
}

/// The audio that goes on to the recognizer: for each frame what the engine
/// gave, or the microphone as it came where it gave nothing.
pub fn assemble<S: Copy>(raw: &Vec<Vec<S>>, out: &Vec<Option<Vec<S>>>) -> (r: Vec<S>)
    requires
        raw@.len() == out@.len(),
    ensures
        r@ == cleaned(raw@, out@),
{
    let mut all: Vec<S> = Vec::new();
    let mut k: usize = 0;
    assert(all@ =~= cleaned(raw@.take(0), out@.take(0)));
    while k < raw.len()
        invariant
            raw@.len() == out@.len(),
            k <= raw@.len(),
            all@ == cleaned(raw@.take(k as int), out@.take(k as int)),
        decreases raw@.len() - k,
    {
        match &out[k] {
            Some(frame) => samples::push_all(&mut all, frame.as_slice()),
            None => samples::push_all(&mut all, raw[k].as_slice()),
        }
        assert(raw@.take(k + 1).drop_last() =~= raw@.take(k as int));
        assert(out@.take(k + 1).drop_last() =~= out@.take(k as int));
        k += 1;
    }
    assert(raw@.take(k as int) =~= raw@);
    assert(out@.take(k as int) =~= out@);
    all
}

/// The user's audio is never dropped: where the engine gives nothing at all,
/// the microphone goes through unchanged.
pub proof fn raw_audio_passes_through<S>(raw: Seq<Vec<S>>, out: Seq<Option<Vec<S>>>)
    requires
        raw.len() == out.len(),
        forall|i: int| 0 <= i < out.len() ==> (#[trigger] out[i]) is None,
    ensures
        cleaned(raw, out) == samples::laid_out(raw),
    decreases raw.len(),
{
    if raw.len() > 0 {
        assert(out[out.len() - 1] is None);
        assert forall|i: int| 0 <= i < out.drop_last().len() implies (
        #[trigger] out.drop_last()[i]) is None by {
            assert(out.drop_last()[i] == out[i]);
        }
        raw_audio_passes_through(raw.drop_last(), out.drop_last());
    }
}

/// Frame by frame, what the engine gave goes on whole, and the microphone as it
/// came where it gave nothing.
pub proof fn every_frame_goes_on<S>(
    raw: Seq<Vec<S>>,
    out: Seq<Option<Vec<S>>>,
    more_raw: Seq<Vec<S>>,
    more_out: Seq<Option<Vec<S>>>,
    frame: Vec<S>,
    given: Vec<S>,
)
    requires
        raw.len() == out.len(),
        more_raw.len() == more_out.len(),
    ensures
        cleaned(raw + more_raw, out + more_out) == cleaned(raw, out) + cleaned(more_raw, more_out),
        cleaned(seq![frame], seq![Some(given)]) == given@,
        cleaned(seq![frame], seq![None]) == frame@,
    decreases more_raw.len(),
{
    let none = Seq::<Vec<S>>::empty();
    assert(seq![frame].drop_last() =~= none);
    assert(cleaned(none, seq![Some(given)].drop_last()) =~= Seq::<S>::empty());
    assert(cleaned(none, seq![None::<Vec<S>>].drop_last()) =~= Seq::<S>::empty());
    assert(cleaned(seq![frame], seq![Some(given)]) =~= given@);
    assert(cleaned(seq![frame], seq![None]) =~= frame@);
    if more_raw.len() == 0 {
        assert(raw + more_raw =~= raw && out + more_out =~= out);
        assert(cleaned(raw, out) + cleaned(more_raw, more_out) =~= cleaned(raw, out));
    } else {
        every_frame_goes_on(raw, out, more_raw.drop_last(), more_out.drop_last(), frame, given);
        assert((raw + more_raw).drop_last() =~= raw + more_raw.drop_last());
        assert((out + more_out).drop_last() =~= out + more_out.drop_last());
        assert(cleaned(raw + more_raw, out + more_out) =~= cleaned(raw, out) + cleaned(
            more_raw,
            more_out,
        ));
    }
}

} // verus!
