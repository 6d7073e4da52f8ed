//! Conversion of captured samples to the 16-bit signed samples that the
//! classifier and the engine work on.
use dasp::sample::Sample;
use vstd::prelude::*;
use vstd::slice::slice_to_vec;

verus! {

/// An 8-bit sample at 16 bits: the same level, scaled to the wider range.
pub open spec fn widened(sample: i8) -> i16 {
    (sample as int * 256) as i16
}

/// A 32-bit sample at 16 bits: its upper half, which is the sample divided
/// by 65536 and rounded down.
pub open spec fn narrowed(sample: i32) -> i16 {
    (sample as int / 65536) as i16
}

/// Calls `dasp::sample::Sample::to_sample::<i16>` on an `i8`. dasp computes
/// `(sample as i16) << 8`, which is the sample times 256 and always fits.
#[verifier::external_body]
fn widen(sample: i8) -> (out: i16)
    ensures
        out == widened(sample),
        out as int == sample as int * 256,
{
    sample.to_sample::<i16>()
}

/// Calls `dasp::sample::Sample::to_sample::<i16>` on an `i32`. dasp computes
/// `(sample >> 16) as i16`: the arithmetic shift rounds towards negative
/// infinity, and its result always fits sixteen bits.
#[verifier::external_body]
fn narrow(sample: i32) -> (out: i16)
    ensures
        out == narrowed(sample),
        out as int == sample as int / 65536,
{
    sample.to_sample::<i16>()
}

/// Converts a batch of 8-bit samples.
pub fn samples_from_i8(data: &[i8]) -> (out: Vec<i16>)
    ensures
        out@ == data@.map_values(|sample: i8| widened(sample)),
{
    let mut out: Vec<i16> = Vec::new();
    let mut i: usize = 0;
    while i < data.len()
        invariant
            i <= data@.len(),
            out@.len() == i,
            forall|k: int| 0 <= k < i ==> out@[k] == widened(data@[k]),
        decreases data@.len() - i,
    {
        out.push(widen(data[i]));
        i = i + 1;
    }
    assert(out@ =~= data@.map_values(|sample: i8| widened(sample)));
    out
}

/// Takes over a batch that is already 16-bit: a plain copy.
pub fn samples_from_i16(data: &[i16]) -> (out: Vec<i16>)
    ensures
        out@ == data@,
{
    slice_to_vec(data)
}

/// Converts a batch of 32-bit samples.
pub fn samples_from_i32(data: &[i32]) -> (out: Vec<i16>)
    ensures
        out@ == data@.map_values(|sample: i32| narrowed(sample)),
{
    let mut out: Vec<i16> = Vec::new();
    let mut i: usize = 0;
    while i < data.len()
        invariant
            i <= data@.len(),
            out@.len() == i,
            forall|k: int| 0 <= k < i ==> out@[k] == narrowed(data@[k]),
        decreases data@.len() - i,
    {
        out.push(narrow(data[i]));
        i = i + 1;
    }
    assert(out@ =~= data@.map_values(|sample: i32| narrowed(sample)));
    out
}

} // verus!
