//! The bookkeeping of the learned echo canceller: hops of 128 samples over
//! windows of 512, with the two signals kept aligned and the output built by
//! overlapping blocks. The transforms and the models run outside.

use vstd::prelude::*;
use crate::samples;

verus! {

/// Samples in an analysis window.
pub const BLOCK_LEN: usize = 512;

/// Samples in a hop.
pub const BLOCK_SHIFT: usize = 128;

/// One hop of both signals.
pub struct Hop<S> {
    pub mic: Vec<S>,
    pub reference: Vec<S>,
}

/// A window after a hop slid into it: the oldest hop drops out in front.
pub open spec fn slid<S>(window: Seq<S>, hop: Seq<S>) -> Seq<S> {
    window.skip(hop.len() as int) + hop
}

fn slide<S: Copy>(window: &mut Vec<S>, hop: &[S])
    requires
        hop@.len() <= old(window)@.len(),
    ensures
        final(window)@ == slid(old(window)@, hop@),
{
    let _ = samples::take_front(window, hop.len());
    samples::push_all(window, hop);
}

fn filled<S: Copy>(value: S, n: usize) -> (r: Vec<S>)
    ensures
        r@ == Seq::new(n as nat, |i: int| value),
{
    let mut out: Vec<S> = Vec::new();
    let mut k: usize = 0;
    while k < n
        invariant
            k <= n,
            out@ == Seq::new(k as nat, |i: int| value),
        decreases n - k,
    {
        out.push(value);
        k += 1;
        assert(out@ =~= Seq::new(k as nat, |i: int| value));
    }
    out
}

/// The state of the canceller, models aside.
#[verifier::ext_equal]
pub struct DtlnView<S> {
    /// Samples of either signal that wait for a whole hop.
    pub mic: Seq<S>,
    pub reference: Seq<S>,
    /// The analysis windows.
    pub mic_window: Seq<S>,
    pub reference_window: Seq<S>,
    /// The output that blocks are added into.
    pub out: Seq<S>,
}

impl<S> DtlnView<S> {
    pub open spec fn wf(self) -> bool {
        &&& self.mic_window.len() == BLOCK_LEN
        &&& self.reference_window.len() == BLOCK_LEN
        &&& self.out.len() == BLOCK_LEN
    }

    /// Both signals hold a whole hop.
    pub open spec fn hop_ready(self) -> bool {
        self.mic.len() >= BLOCK_SHIFT && self.reference.len() >= BLOCK_SHIFT
    }
}

pub struct DtlnCanceller<S> {
    mic_acc: Vec<S>,
    lpb_acc: Vec<S>,
    in_buf: Vec<S>,
    lpb_buf: Vec<S>,
    out_buf: Vec<S>,
}

impl<S> View for DtlnCanceller<S> {
    type V = DtlnView<S>;

    closed spec fn view(&self) -> DtlnView<S> {
        DtlnView {
            mic: self.mic_acc@,
            reference: self.lpb_acc@,
            mic_window: self.in_buf@,
            reference_window: self.lpb_buf@,
            out: self.out_buf@,
        }
    }
}

impl<S: Copy> DtlnCanceller<S> {
    /// Windows full of silence, nothing waiting.
    pub fn new(silence: S) -> (r: Self)
        ensures
            r@.wf(),
            ({
                let quiet = Seq::new(BLOCK_LEN as nat, |i: int| silence);
                r@ == (DtlnView {
                    mic: seq![],
                    reference: seq![],
                    mic_window: quiet,
                    reference_window: quiet,
                    out: quiet,
                })
            }),
    {
        let r = DtlnCanceller {
            mic_acc: Vec::new(),
            lpb_acc: Vec::new(),
            in_buf: filled(silence, BLOCK_LEN),
            lpb_buf: filled(silence, BLOCK_LEN),
            out_buf: filled(silence, BLOCK_LEN),
        };
        assert(r@.mic =~= seq![]);
        assert(r@.reference =~= seq![]);
        r
    }

    /// Takes in reference audio.
    pub fn push_reference(&mut self, block: &[S])
        ensures
            final(self)@ == (DtlnView { reference: old(self)@.reference + block@, ..old(self)@ }),
    {
        samples::push_all(&mut self.lpb_acc, block);
    }

    /// Takes in microphone audio.
    pub fn push_mic(&mut self, block: &[S])
        ensures
            final(self)@ == (DtlnView { mic: old(self)@.mic + block@, ..old(self)@ }),
    {
        samples::push_all(&mut self.mic_acc, block);
    }

    /// Takes the next hop off both signals, as long as both hold one, and
    /// slides it into the analysis windows. A hop leaves the signals whatever
    /// the models make of it, so they never run apart.
    pub fn next_hop(&mut self) -> (r: Option<Hop<S>>)
        requires
            old(self)@.wf(),
        ensures
            final(self)@.wf(),
            r is Some <==> old(self)@.hop_ready(),
            r is None ==> final(self)@ == old(self)@,
            r matches Some(hop) ==> {
                &&& hop.mic@ == old(self)@.mic.take(BLOCK_SHIFT as int)
                &&& hop.reference@ == old(self)@.reference.take(BLOCK_SHIFT as int)
                &&& final(self)@ == (DtlnView {
                    mic: old(self)@.mic.skip(BLOCK_SHIFT as int),
                    reference: old(self)@.reference.skip(BLOCK_SHIFT as int),
                    mic_window: slid(old(self)@.mic_window, hop.mic@),
                    reference_window: slid(old(self)@.reference_window, hop.reference@),
                    out: old(self)@.out,
                })
            },
    {
        if self.mic_acc.len() < BLOCK_SHIFT || self.lpb_acc.len() < BLOCK_SHIFT {
            return None;
        }
        let mic = samples::take_front(&mut self.mic_acc, BLOCK_SHIFT);
        let reference = samples::take_front(&mut self.lpb_acc, BLOCK_SHIFT);
        slide(&mut self.in_buf, mic.as_slice());
        slide(&mut self.lpb_buf, reference.as_slice());
        Some(Hop { mic, reference })
    }

    /// The windows that the transforms and models work on.
    pub fn windows(&self) -> (r: (&Vec<S>, &Vec<S>))
        ensures
            r.0@ == self@.mic_window,
            r.1@ == self@.reference_window,
    {
        (&self.in_buf, &self.lpb_buf)
    }

    /// Moves the output on by a hop, with silence at its end, and gives it for
    /// the new block to be added to.
    pub fn shift_out(&mut self, silence: S) -> (r: Vec<S>)
        requires
            old(self)@.wf(),
        ensures
            final(self)@.wf(),
            r@ == slid(old(self)@.out, Seq::new(BLOCK_SHIFT as nat, |i: int| silence)),
            final(self)@ == (DtlnView { out: r@, ..old(self)@ }),
    {
        let tail = filled(silence, BLOCK_SHIFT);
        slide(&mut self.out_buf, tail.as_slice());
        let copy = samples::slice_of(&self.out_buf, 0, BLOCK_LEN);
        assert(copy@ =~= self.out_buf@);
        copy
    }

    /// Stores the output with the new block added, and gives its first hop,
    /// which no later block changes.
    pub fn finish_hop(&mut self, sums: Vec<S>) -> (r: Vec<S>)
        requires
            sums@.len() == BLOCK_LEN,
            old(self)@.wf(),
        ensures
            final(self)@.wf(),
            final(self)@ == (DtlnView { out: sums@, ..old(self)@ }),
            r@ == sums@.take(BLOCK_SHIFT as int),
    {
        let hop = samples::slice_of(&sums, 0, BLOCK_SHIFT);
        assert(hop@ =~= sums@.take(BLOCK_SHIFT as int));
        self.out_buf = sums;
        hop
    }
}

/// The analysis window is always the end of what has gone through it.
pub proof fn window_is_recent_audio<S>(heard: Seq<S>, window: Seq<S>, hop: Seq<S>)
    requires
        samples::ends_with(heard, window),
        hop.len() <= window.len(),
    ensures
        samples::ends_with(heard + hop, slid(window, hop)),
{
    let now = heard + hop;
    let next = slid(window, hop);
    assert(now.skip(now.len() - next.len()) =~= next) by {
        assert forall|i: int| 0 <= i < next.len() implies now.skip(now.len() - next.len())[i]
            == next[i] by {
            if i < window.len() - hop.len() {
                assert(heard.skip(heard.len() - window.len())[i + hop.len()] == window[i
                    + hop.len()]);
            }
        }
    }
}

/// A hop pushes as much out of the window as it brings into it.
pub proof fn hops_push_out_the_oldest<S>(oldest: Seq<S>, kept: Seq<S>, hop: Seq<S>)
    requires
        oldest.len() == hop.len(),
    ensures
        slid(oldest + kept, hop) == kept + hop,
{
    assert((oldest + kept).skip(hop.len() as int) =~= kept);
}

/// A hop is ready as soon as both signals hold one, and not before.
pub proof fn hops_wait_for_both_signals<S>(v: DtlnView<S>)
    ensures
        v.hop_ready() <==> v.mic.len() >= 128 && v.reference.len() >= 128,
{
}

} // verus!
