//! Samples between a call and an audio device: frames cut from what a
//! microphone gives, and the buffer in front of a loudspeaker.
use vstd::prelude::*;
use vstd::slice::{slice_subrange, slice_to_vec};

verus! {

// ---------------------------------------------------------------------------
// Recording
// ---------------------------------------------------------------------------

/// The whole frames of `n` samples at the front of `s`.
pub open spec fn frames(s: Seq<i16>, n: nat) -> Seq<Seq<i16>>
    decreases s.len(),
{
    if n == 0 || s.len() < n {
        seq![]
    } else {
        seq![s.take(n as int)] + frames(s.skip(n as int), n)
    }
}

/// What is left of `s` behind its whole frames of `n` samples.
pub open spec fn leftover(s: Seq<i16>, n: nat) -> Seq<i16>
    decreases s.len(),
{
    if n == 0 || s.len() < n {
        s
    } else {
        leftover(s.skip(n as int), n)
    }
}

/// The samples of each frame.
pub open spec fn frame_views(v: Seq<Vec<i16>>) -> Seq<Seq<i16>> {
    Seq::new(v.len(), |i: int| v[i]@)
}

/// Cuts a stream of samples into frames.
pub struct FrameCutter {
    rest: Vec<i16>,
    frame_len: usize,
}

impl FrameCutter {
    /// The samples that do not fill a frame yet.
    pub closed spec fn spec_rest(&self) -> Seq<i16> {
        self.rest@
    }

    pub closed spec fn spec_len(&self) -> nat {
        self.frame_len as nat
    }

    pub fn new(frame_len: usize) -> (r: Self)
        ensures
            r.spec_rest() == Seq::<i16>::empty(),
            r.spec_len() == frame_len,
    {
        FrameCutter { rest: Vec::new(), frame_len }
    }

    /// Takes in samples; gives the frames that they fill.
    pub fn push(&mut self, samples: &[i16]) -> (r: Vec<Vec<i16>>)
        requires
            old(self).spec_len() > 0,
        ensures
            frame_views(r@) == frames(old(self).spec_rest() + samples@, old(self).spec_len()),
            final(self).spec_rest() == leftover(
                old(self).spec_rest() + samples@,
                old(self).spec_len(),
            ),
            final(self).spec_len() == old(self).spec_len(),
    {
        let n: usize = self.frame_len;
        let mut all: Vec<i16> = slice_to_vec(self.rest.as_slice());
        let m: usize = samples.len();
        let mut i: usize = 0;
        assert(all@ =~= self.rest@ + samples@.take(0));
        while i < m
            invariant
                m == samples@.len(),
                i <= m,
                all@ == self.rest@ + samples@.take(i as int),
            decreases m - i,
        {
            all.push(samples[i]);
            i = i + 1;
            assert(all@ =~= self.rest@ + samples@.take(i as int));
        }
        assert(samples@.take(m as int) =~= samples@);
        let ghost total = self.rest@ + samples@;
        let mut out: Vec<Vec<i16>> = Vec::new();
        let mut rest = all.as_slice();
        assert(frame_views(out@) + frames(rest@, n as nat) =~= frames(total, n as nat));
        while rest.len() >= n
            invariant
                n > 0,
                frame_views(out@) + frames(rest@, n as nat) == frames(total, n as nat),
                leftover(rest@, n as nat) == leftover(total, n as nat),
            decreases rest@.len(),
        {
            let f = slice_subrange(rest, 0, n);
            let t = slice_subrange(rest, n, rest.len());
            assert(f@ =~= rest@.take(n as int));
            assert(t@ =~= rest@.skip(n as int));
            let ghost before = frame_views(out@);
            out.push(slice_to_vec(f));
            assert(frame_views(out@) =~= before.push(f@));
            assert(frame_views(out@) + frames(t@, n as nat) =~= before + (seq![f@] + frames(
                t@,
                n as nat,
            )));
            rest = t;
        }
        assert(frame_views(out@) =~= frames(total, n as nat));
        self.rest = slice_to_vec(rest);
        out
    }
}

/// Each frame has its length, and less than a frame is left.
pub proof fn law_frames_are_whole(s: Seq<i16>, n: nat, i: int)
    requires
        n > 0,
        0 <= i < frames(s, n).len(),
    ensures
        frames(s, n)[i].len() == n,
        leftover(s, n).len() < n,
    decreases s.len(),
{
    if s.len() >= n {
        if i > 0 {
            law_frames_are_whole(s.skip(n as int), n, i - 1);
            assert(frames(s, n)[i] == frames(s.skip(n as int), n)[i - 1]);
        } else {
            lemma_leftover_len(s, n);
        }
    }
}

proof fn lemma_leftover_len(s: Seq<i16>, n: nat)
    requires
        n > 0,
    ensures
        leftover(s, n).len() < n,
    decreases s.len(),
{
    if s.len() >= n {
        lemma_leftover_len(s.skip(n as int), n);
    }
}

/// The samples of the frames, one after the other.
pub open spec fn joined(fs: Seq<Seq<i16>>) -> Seq<i16>
    decreases fs.len(),
{
    if fs.len() == 0 {
        seq![]
    } else {
        fs[0] + joined(fs.skip(1))
    }
}

/// No sample is lost or moved: the frames, and what is left, are the samples.
pub proof fn law_frames_keep_samples(s: Seq<i16>, n: nat)
    ensures
        joined(frames(s, n)) + leftover(s, n) == s,
    decreases s.len(),
{
    if n == 0 || s.len() < n {
        assert(joined(frames(s, n)) + leftover(s, n) =~= s);
    } else {
        let t = s.skip(n as int);
        law_frames_keep_samples(t, n);
        assert(frames(s, n).skip(1) =~= frames(t, n));
        assert(frames(s, n)[0] == s.take(n as int));
        assert(joined(frames(s, n)) + leftover(s, n) =~= s.take(n as int) + (joined(frames(t, n))
            + leftover(t, n)));
        assert(s.take(n as int) + t =~= s);
    }
}

// ---------------------------------------------------------------------------
// Playing
// ---------------------------------------------------------------------------

/// A sample in half steps: twice its value, so that the middle of two samples
/// is a whole number.
pub open spec fn half_steps(frame: Seq<i16>) -> Seq<i32> {
    Seq::new(frame.len(), |i: int| (2 * frame[i]) as i32)
}

/// A frame that is one sample shorter: two samples in the middle become one,
/// halfway between them.
pub open spec fn shortened(frame: Seq<i16>) -> Seq<i32> {
    let mid = frame.len() as int / 2;
    half_steps(frame).update(mid, (frame[mid] + frame[mid + 1]) as i32).remove(mid + 1)
}

/// A frame that is one sample longer: a sample in the middle comes twice.
pub open spec fn lengthened(frame: Seq<i16>) -> Seq<i32> {
    let mid = frame.len() as int / 2;
    half_steps(frame).insert(mid + 1, (2 * frame[mid]) as i32)
}

/// A frame as it goes into a buffer with `level` samples. The clock of the
/// sender and that of the device drift apart: where more than three frames
/// wait, the frame is shortened, and where less than one does, it is
/// lengthened.
pub open spec fn corrected(level: nat, frame: Seq<i16>, per_frame: nat) -> Seq<i32> {
    if level > 3 * per_frame && frame.len() > 2 {
        shortened(frame)
    } else if level < per_frame && frame.len() > 0 {
        lengthened(frame)
    } else {
        half_steps(frame)
    }
}

/// A buffer that is not too long: one of more than four frames is cut to the
/// last two.
pub open spec fn capped(s: Seq<i32>, per_frame: nat) -> Seq<i32> {
    if s.len() > 4 * per_frame {
        s.skip(s.len() - 2 * per_frame)
    } else {
        s
    }
}

/// The samples that wait to be played, in half steps.
pub struct PlayoutBuffer {
    samples: Vec<i32>,
    per_frame: usize,
}

impl PlayoutBuffer {
    pub closed spec fn spec_samples(&self) -> Seq<i32> {
        self.samples@
    }

    /// The number of samples that the device plays in twenty milliseconds.
    pub closed spec fn spec_per_frame(&self) -> nat {
        self.per_frame as nat
    }

    pub fn new(per_frame: usize) -> (r: Self)
        ensures
            r.spec_samples() == Seq::<i32>::empty(),
            r.spec_per_frame() == per_frame,
    {
        PlayoutBuffer { samples: Vec::new(), per_frame }
    }

    fn adjusted(&self, frame: &[i16]) -> (r: Vec<i32>)
        requires
            4 * self.per_frame <= usize::MAX,
        ensures
            r@ == corrected(self.samples@.len(), frame@, self.per_frame as nat),
    {
        let n: usize = frame.len();
        let level: usize = self.samples.len();
        let mut out: Vec<i32> = Vec::new();
        let mut i: usize = 0;
        while i < n
            invariant
                n == frame@.len(),
                i <= n,
                out@ =~= half_steps(frame@).take(i as int),
            decreases n - i,
        {
            out.push(2 * frame[i] as i32);
            i = i + 1;
        }
        assert(out@ =~= half_steps(frame@));
        let mid: usize = n / 2;
        if level > 3 * self.per_frame && n > 2 {
            out.set(mid, frame[mid] as i32 + frame[mid + 1] as i32);
            let _ = out.remove(mid + 1);
        } else if level < self.per_frame && n > 0 {
            out.insert(mid + 1, 2 * frame[mid] as i32);
        }
        out
    }

    /// Takes in a frame of samples.
    pub fn push_frame(&mut self, frame: &[i16])
        requires
            4 * old(self).spec_per_frame() <= usize::MAX,
        ensures
            final(self).spec_samples() == capped(
                old(self).spec_samples() + corrected(
                    old(self).spec_samples().len(),
                    frame@,
                    old(self).spec_per_frame(),
                ),
                old(self).spec_per_frame(),
            ),
            final(self).spec_per_frame() == old(self).spec_per_frame(),
    {
        let mut add: Vec<i32> = self.adjusted(frame);
        self.samples.append(&mut add);
        let n: usize = self.samples.len();
        if n > 4 * self.per_frame {
            let keep = slice_subrange(self.samples.as_slice(), n - 2 * self.per_frame, n);
            let kept: Vec<i32> = slice_to_vec(keep);
            assert(kept@ =~= self.samples@.skip(n - 2 * self.per_frame));
            self.samples = kept;
        }
    }

    /// Takes out all samples.
    pub fn take_all(&mut self) -> (r: Vec<i32>)
        ensures
            r@ == old(self).spec_samples(),
            final(self).spec_samples() == Seq::<i32>::empty(),
            final(self).spec_per_frame() == old(self).spec_per_frame(),
    {
        let mut out: Vec<i32> = Vec::new();
        out.append(&mut self.samples);
        assert(out@ =~= old(self).samples@);
        out
    }

    pub fn len(&self) -> (r: usize)
        ensures
            r == self.spec_samples().len(),
    {
        self.samples.len()
    }
}

/// However fast frames come in, no more than four frames wait.
pub proof fn law_playout_bounded(s: Seq<i32>, per_frame: nat)
    ensures
        capped(s, per_frame).len() <= 4 * per_frame,
{
}

/// A correction changes the length of a frame by one sample at most.
pub proof fn law_correction_is_small(level: nat, frame: Seq<i16>, per_frame: nat)
    ensures
        frame.len() - 1 <= corrected(level, frame, per_frame).len() <= frame.len() + 1,
        corrected(level, frame, per_frame).len() < frame.len() ==> level > 3 * per_frame,
        corrected(level, frame, per_frame).len() > frame.len() ==> level < per_frame,
{
}

} // verus!
