//! Nearest-neighbour time-stretching of a sample buffer.
use vstd::prelude::*;

verus! {

/// The position in a source of `len` samples that output position `i` of
/// `target` samples is taken from: `floor(i * len / target)`, kept within the
/// source.
pub open spec fn source_index(i: int, len: int, target: int) -> int {
    let raw = (i * len) / target;
    if raw > len - 1 {
        len - 1
    } else {
        raw
    }
}

/// `src` resampled to `target` samples by repeating (or skipping) samples.
/// An empty source has nothing to repeat and stays empty.
pub open spec fn stretched(src: Seq<i16>, target: nat) -> Seq<i16> {
    if src.len() == 0 {
        Seq::empty()
    } else {
        Seq::new(target, |i: int| src[source_index(i, src.len() as int, target as int)])
    }
}

/// The source position of every output position lies inside the source.
pub proof fn lemma_source_index_in_range(i: int, len: int, target: int)
    requires
        0 <= i < target,
        0 < len,
    ensures
        0 <= source_index(i, len, target) < len,
        source_index(i, len, target) == (i * len) / target,
{
    assert(0 <= i * len) by (nonlinear_arith)
        requires
            0 <= i,
            0 < len,
    ;
    assert(i * len < len * target) by (nonlinear_arith)
        requires
            0 <= i < target,
            0 < len,
    ;
    assert(0 <= (i * len) / target < len) by (nonlinear_arith)
        requires
            0 <= i * len < len * target,
            0 < target,
    ;
}

/// Stretching a buffer to a length that is no shorter gives exactly that
/// many samples, starts with the first sample of the source, ends with its
/// last, and never steps backwards in the source.
pub proof fn lemma_stretch_covers_source(src: Seq<i16>, target: nat)
    requires
        0 < src.len() <= target,
    ensures
        stretched(src, target).len() == target,
        stretched(src, target)[0] == src[0],
        stretched(src, target)[target - 1] == src[src.len() - 1],
        forall|i: int, j: int|
            0 <= i <= j < target ==> source_index(i, src.len() as int, target as int)
                <= source_index(j, src.len() as int, target as int),
{
    let len = src.len() as int;
    let goal = target as int;
    lemma_source_index_in_range(0, len, goal);
    lemma_source_index_in_range(goal - 1, len, goal);
    assert((0 * len) / goal == 0) by (nonlinear_arith)
        requires
            0 < goal,
    ;
    assert(((goal - 1) * len) / goal >= len - 1) by (nonlinear_arith)
        requires
            0 < len <= goal,
    ;
    assert forall|i: int, j: int| 0 <= i <= j < goal implies source_index(i, len, goal)
        <= source_index(j, len, goal) by {
        lemma_source_index_in_range(i, len, goal);
        lemma_source_index_in_range(j, len, goal);
        assert((i * len) / goal <= (j * len) / goal) by (nonlinear_arith)
            requires
                0 <= i <= j,
                0 < len,
                0 < goal,
        ;
    }
}

/// Stretching a buffer to its own length changes nothing.
pub proof fn lemma_stretch_same_length(src: Seq<i16>)
    ensures
        stretched(src, src.len()) == src,
{
    let len = src.len() as int;
    if len > 0 {
        assert forall|i: int| 0 <= i < len implies source_index(i, len, len) == i by {
            lemma_source_index_in_range(i, len, len);
            assert((i * len) / len == i) by (nonlinear_arith)
                requires
                    0 < len,
            ;
        }
        assert(stretched(src, src.len()) =~= src);
    } else {
        assert(stretched(src, src.len()) =~= src);
    }
}

/// Resamples `src` to exactly `target` samples, nearest neighbour.
pub fn stretch(src: &[i16], target: usize) -> (out: Vec<i16>)
    ensures
        out@ == stretched(src@, target as nat),
{
    let len: usize = src.len();
    let mut out: Vec<i16> = Vec::new();
    if len == 0 {
        return out;
    }
    let mut i: usize = 0;
    while i < target
        invariant
            len == src@.len(),
            0 < len,
            i <= target,
            out@.len() == i,
            forall|k: int|
                0 <= k < i ==> out@[k] == src@[source_index(k, len as int, target as int)],
        decreases target - i,
    {
        proof {
            lemma_source_index_in_range(i as int, len as int, target as int);
            assert(i * len < len * target) by (nonlinear_arith)
                requires
                    0 <= i < target,
                    0 < len,
            ;
            assert(len * target <= 0xffff_ffff_ffff_ffff * 0xffff_ffff_ffff_ffff)
                by (nonlinear_arith)
                requires
                    0 <= len <= 0xffff_ffff_ffff_ffff,
                    0 <= target <= 0xffff_ffff_ffff_ffff,
            ;
        }
        let wide: u128 = (i as u128) * (len as u128) / (target as u128);
        let at: usize = wide as usize;
        out.push(src[at]);
        i = i + 1;
    }
    out
}

} // verus!
