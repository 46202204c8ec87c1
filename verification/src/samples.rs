//! Buffers of audio samples, whatever type a sample has.

use vstd::prelude::*;

verus! {

/// Appends every sample of `more`.
pub fn push_all<S: Copy>(buf: &mut Vec<S>, more: &[S])
    ensures
        final(buf)@ == old(buf)@ + more@,
{
    let mut k: usize = 0;
    while k < more.len()
        invariant
            k <= more.len(),
            buf@ == old(buf)@ + more@.take(k as int),
        decreases more.len() - k,
    {
        buf.push(more[k]);
        assert(more@.take(k + 1) =~= more@.take(k as int).push(more@[k as int]));
        assert(buf@ =~= old(buf)@ + more@.take(k + 1));
        k += 1;
    }
    assert(more@.take(k as int) =~= more@);
}

/// Takes the first `n` samples off the buffer.
pub fn take_front<S>(buf: &mut Vec<S>, n: usize) -> (front: Vec<S>)
    requires
        n <= old(buf)@.len(),
    ensures
        front@ == old(buf)@.take(n as int),
        final(buf)@ == old(buf)@.skip(n as int),
{
    let mut rest = buf.split_off(n);
    std::mem::swap(buf, &mut rest);
    assert(rest@ =~= old(buf)@.take(n as int));
    assert(buf@ =~= old(buf)@.skip(n as int));
    rest
}

/// Takes the whole buffer and leaves an empty one.
pub fn take_all<S>(buf: &mut Vec<S>) -> (all: Vec<S>)
    ensures
        all@ == old(buf)@,
        final(buf)@ == Seq::<S>::empty(),
{
    let mut all: Vec<S> = Vec::new();
    std::mem::swap(buf, &mut all);
    all
}

/// The samples from `from` up to `to`.
pub fn slice_of<S: Copy>(buf: &Vec<S>, from: usize, to: usize) -> (r: Vec<S>)
    requires
        from <= to <= buf@.len(),
    ensures
        r@ == buf@.subrange(from as int, to as int),
{
    let mut out: Vec<S> = Vec::new();
    let mut k: usize = from;
    while k < to
        invariant
            from <= k <= to <= buf@.len(),
            out@ == buf@.subrange(from as int, k as int),
        decreases to - k,
    {
        out.push(buf[k]);
        assert(out@ =~= buf@.subrange(from as int, k + 1));
        k += 1;
    }
    out
}

/// `part` is the last stretch of `whole`.
pub open spec fn ends_with<S>(whole: Seq<S>, part: Seq<S>) -> bool {
    part.len() <= whole.len() && whole.skip(whole.len() - part.len()) == part
}

/// Frames laid end to end.
pub open spec fn laid_out<S>(frames: Seq<Vec<S>>) -> Seq<S>
    decreases frames.len(),
{
    if frames.len() == 0 {
        seq![]
    } else {
        laid_out(frames.drop_last()) + frames.last()@
    }
}

/// Cuts audio that arrives in blocks of any size into frames of one size.
pub struct FrameBuffer<S> {
    frame_len: usize,
    pending: Vec<S>,
}

impl<S> View for FrameBuffer<S> {
    type V = Seq<S>;

    /// The samples that wait for a whole frame.
    closed spec fn view(&self) -> Seq<S> {
        self.pending@
    }
}

impl<S: Copy> FrameBuffer<S> {
    /// The number of samples in a frame.
    pub closed spec fn frame_size(self) -> nat {
        self.frame_len as nat
    }

    pub fn new(frame_len: usize) -> (r: Self)
        requires
            frame_len > 0,
        ensures
            r.frame_size() == frame_len,
            r@ == Seq::<S>::empty(),
    {
        FrameBuffer { frame_len, pending: Vec::new() }
    }

    /// Takes in a block of audio.
    pub fn push(&mut self, block: &[S])
        ensures
            final(self)@ == old(self)@ + block@,
            final(self).frame_size() == old(self).frame_size(),
    {
        push_all(&mut self.pending, block);
    }

    /// The next whole frame, if there is one.
    pub fn next_frame(&mut self) -> (r: Option<Vec<S>>)
        ensures
            final(self).frame_size() == old(self).frame_size(),
            r is Some <==> old(self)@.len() >= old(self).frame_size(),
            match r {
                Some(frame) => frame@ == old(self)@.take(old(self).frame_size() as int)
                    && final(self)@ == old(self)@.skip(old(self).frame_size() as int),
                None => final(self)@ == old(self)@,
            },
    {
        if self.pending.len() >= self.frame_len {
            Some(take_front(&mut self.pending, self.frame_len))
        } else {
            None
        }
    }

    /// Takes in a block and gives out every frame that is now whole. No sample
    /// is lost or moved: the frames and what is left are what was pending and
    /// the block.
    pub fn push_framed(&mut self, block: &[S]) -> (frames: Vec<Vec<S>>)
        requires
            old(self).frame_size() > 0,
        ensures
            final(self).frame_size() == old(self).frame_size(),
            laid_out(frames@) + final(self)@ == old(self)@ + block@,
            forall|i: int|
                0 <= i < frames@.len() ==> #[trigger] frames@[i]@.len() == old(self).frame_size(),
            final(self)@.len() < old(self).frame_size(),
    {
        self.push(block);
        let ghost all = self@;
        let ghost size = self.frame_size();
        let mut frames: Vec<Vec<S>> = Vec::new();
        assert(laid_out(frames@) + self@ =~= all);
        while self.pending.len() >= self.frame_len
            invariant
                self.frame_size() == size,
                size > 0,
                laid_out(frames@) + self@ == all,
                forall|i: int| 0 <= i < frames@.len() ==> #[trigger] frames@[i]@.len() == size,
            decreases self.pending@.len(),
        {
            let ghost before = self@;
            let ghost so_far = frames@;
            let frame = take_front(&mut self.pending, self.frame_len);
            assert(before =~= frame@ + self@);
            frames.push(frame);
            assert(frames@.drop_last() =~= so_far);
            assert(laid_out(frames@) + self@ =~= laid_out(so_far) + before);
        }
        frames
    }
}

/// Frames laid out are all of each of them, in order.
pub proof fn frames_are_laid_out_whole<S>(a: Seq<Vec<S>>, b: Seq<Vec<S>>, frame: Vec<S>)
    ensures
        laid_out(a + b) == laid_out(a) + laid_out(b),
        laid_out(seq![frame]) == frame@,
    decreases b.len(),
{
    assert(seq![frame].drop_last() =~= Seq::<Vec<S>>::empty());
    assert(laid_out(Seq::<Vec<S>>::empty()) =~= Seq::<S>::empty());
    assert(laid_out(seq![frame]) =~= frame@);
    if b.len() == 0 {
        assert(a + b =~= a);
        assert(laid_out(a) + laid_out(b) =~= laid_out(a));
    } else {
        frames_are_laid_out_whole(a, b.drop_last(), frame);
        assert((a + b).drop_last() =~= a + b.drop_last());
        assert(laid_out(a + b) =~= laid_out(a) + laid_out(b));
    }
}

} // verus!
