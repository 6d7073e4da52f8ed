//! Cutting a batch into the fixed-size frames that the voice classifier
//! takes, and folding the classifier's answers into one for the batch.
use vstd::prelude::*;

verus! {

/// The classifier's answer for one frame.
#[derive(Debug, Clone, Copy, PartialEq, Eq, Structural)]
pub enum FrameVerdict {
    /// The frame holds speech.
    Voiced,
    /// The frame holds no speech.
    Unvoiced,
    /// The classifier failed on the frame; it counts as holding no speech.
    Failed,
}

/// The number of whole frames in a batch of `len` samples. A frame size of
/// zero gives no frames.
pub open spec fn frame_count(len: nat, frame_size: nat) -> nat {
    if frame_size == 0 {
        0
    } else {
        len / frame_size
    }
}

/// The `k`-th frame of a batch.
pub open spec fn frame_at(batch: Seq<i16>, frame_size: nat, k: int) -> Seq<i16> {
    batch.subrange(k * frame_size, (k + 1) * frame_size)
}

/// Whether at least one frame was found to hold speech.
pub open spec fn any_voiced(verdicts: Seq<FrameVerdict>) -> bool {
    exists|k: int| 0 <= k < verdicts.len() && verdicts[k] == FrameVerdict::Voiced
}

/// Every frame lies inside the batch, and what is left over behind the last
/// frame is shorter than one frame.
pub proof fn lemma_frame_bounds(len: nat, frame_size: nat, k: int)
    requires
        0 <= k < frame_count(len, frame_size),
    ensures
        0 <= k * frame_size,
        (k + 1) * frame_size <= frame_count(len, frame_size) * frame_size <= len,
        k * frame_size + frame_size == (k + 1) * frame_size,
        len - frame_count(len, frame_size) * frame_size < frame_size,
{
    let count = frame_count(len, frame_size) as int;
    let size = frame_size as int;
    assert(count * size <= len && len - count * size < size) by (nonlinear_arith)
        requires
            count == (len as int) / size,
            size > 0,
            len >= 0,
    ;
    assert(0 <= k * size && (k + 1) * size <= count * size && k * size + size == (k + 1) * size)
        by (nonlinear_arith)
        requires
            0 <= k < count,
            size > 0,
    ;
}

/// Cuts `batch` into consecutive frames of `frame_size` samples, in order.
/// What is left over behind the last whole frame is not part of any frame.
pub fn split_frames(batch: &[i16], frame_size: usize) -> (frames: Vec<Vec<i16>>)
    ensures
        frames@.len() == frame_count(batch@.len(), frame_size as nat),
        forall|k: int|
            0 <= k < frames@.len() ==> (#[trigger] frames@[k])@ == frame_at(
                batch@,
                frame_size as nat,
                k,
            ),
{
    let mut frames: Vec<Vec<i16>> = Vec::new();
    if frame_size == 0 {
        return frames;
    }
    let len: usize = batch.len();
    let count: usize = len / frame_size;
    let mut k: usize = 0;
    while k < count
        invariant
            frame_size > 0,
            len == batch@.len(),
            count == frame_count(batch@.len(), frame_size as nat),
            k <= count,
            frames@.len() == k,
            forall|j: int|
                0 <= j < k ==> (#[trigger] frames@[j])@ == frame_at(batch@, frame_size as nat, j),
        decreases count - k,
    {
        proof {
            lemma_frame_bounds(batch@.len(), frame_size as nat, k as int);
        }
        let from: usize = k * frame_size;
        let to: usize = from + frame_size;
        let mut frame: Vec<i16> = Vec::new();
        let mut at: usize = from;
        while at < to
            invariant
                from <= at <= to <= batch@.len(),
                frame@ == batch@.subrange(from as int, at as int),
            decreases to - at,
        {
            frame.push(batch[at]);
            at = at + 1;
            assert(batch@.subrange(from as int, at as int) == batch@.subrange(
                from as int,
                at - 1,
            ).push(batch@[at - 1]));
        }
        frames.push(frame);
        k = k + 1;
    }
    frames
}

/// Folds the answers for the frames of one batch: the batch is voiced if at
/// least one frame is. A batch without frames is not voiced.
pub fn batch_voiced(verdicts: &[FrameVerdict]) -> (voiced: bool)
    ensures
        voiced == any_voiced(verdicts@),
{
    let mut i: usize = 0;
    while i < verdicts.len()
        invariant
            i <= verdicts@.len(),
            forall|k: int| 0 <= k < i ==> verdicts@[k] != FrameVerdict::Voiced,
        decreases verdicts@.len() - i,
    {
        if verdicts[i] == FrameVerdict::Voiced {
            return true;
        }
        i = i + 1;
    }
    false
}

} // verus!
