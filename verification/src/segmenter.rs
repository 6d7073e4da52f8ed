//! The segmentation state machine: accumulates voiced audio, ends an
//! utterance after a silence timeout and decides what becomes of it.
use crate::config::EngineConfig;
use crate::stretch::{stretch, stretched};
use vstd::prelude::*;

verus! {

/// What one step of the engine decided.
#[derive(Debug, PartialEq, Eq)]
pub enum Outcome<S> {
    /// No utterance is in progress.
    Idle,
    /// An utterance is in progress and the silence timeout has not fired.
    Waiting,
    /// An utterance ended and was too short to be recognized.
    Dropped,
    /// An utterance ended; these samples go to the recognizer.
    HandOff(S),
}

impl View for Outcome<Vec<i16>> {
    type V = Outcome<Seq<i16>>;

    open spec fn view(&self) -> Outcome<Seq<i16>> {
        match self {
            Outcome::Idle => Outcome::Idle,
            Outcome::Waiting => Outcome::Waiting,
            Outcome::Dropped => Outcome::Dropped,
            Outcome::HandOff(samples) => Outcome::HandOff(samples@),
        }
    }
}

/// The engine's state as plain values: the utterance buffer and the moment,
/// in milliseconds of monotonic time, at which voiced audio was last seen.
pub struct SegState {
    pub buffer: Seq<i16>,
    pub last_voiced: Option<u64>,
}

/// Milliseconds from `since` to `now`; zero if `now` lies before `since`.
pub open spec fn elapsed(since: u64, now: u64) -> int {
    if now >= since {
        now - since
    } else {
        0
    }
}

/// The length below which a short utterance is dropped rather than
/// stretched: the share `interpolation_ms / 1000` of the minimum length,
/// rounded down.
pub open spec fn min_samples(threshold: nat, interpolation_ms: nat) -> nat {
    threshold * interpolation_ms / 1000
}

/// What becomes of a finished utterance buffer.
pub open spec fn verdict(
    buffer: Seq<i16>,
    threshold: nat,
    interpolation_ms: Option<u32>,
) -> Outcome<Seq<i16>> {
    if buffer.len() == 0 {
        Outcome::Idle
    } else if buffer.len() >= threshold {
        Outcome::HandOff(buffer)
    } else {
        match interpolation_ms {
            None => Outcome::Dropped,
            Some(ms) => if buffer.len() < min_samples(threshold, ms as nat) {
                Outcome::Dropped
            } else {
                Outcome::HandOff(stretched(buffer, threshold))
            },
        }
    }
}

impl SegState {
    /// The state with no utterance in progress.
    pub open spec fn idle() -> SegState {
        SegState { buffer: Seq::empty(), last_voiced: None }
    }

    /// The timer runs exactly while the buffer holds samples.
    pub open spec fn consistent(self) -> bool {
        self.last_voiced is Some <==> self.buffer.len() > 0
    }

    /// The state after a batch: a voiced, non-empty batch is appended and
    /// restarts the timer; any other batch changes nothing.
    pub open spec fn accept(self, batch: Seq<i16>, voiced: bool, now: u64) -> SegState {
        if voiced && batch.len() > 0 {
            SegState { buffer: self.buffer + batch, last_voiced: Some(now) }
        } else {
            self
        }
    }

    /// Whether an utterance is in progress and has been quiet for `delay`
    /// milliseconds or more.
    pub open spec fn timed_out(self, delay: u64, now: u64) -> bool {
        match self.last_voiced {
            Some(since) => elapsed(since, now) >= delay,
            None => false,
        }
    }

    /// The state after one tick.
    pub open spec fn tick(self, config: EngineConfig, batch: Seq<i16>, voiced: bool, now: u64)
        -> SegState {
        let heard = self.accept(batch, voiced, now);
        if heard.timed_out(config.silence_delay_ms, now) {
            SegState::idle()
        } else {
            heard
        }
    }

    /// What one tick decides.
    pub open spec fn tick_outcome(
        self,
        config: EngineConfig,
        batch: Seq<i16>,
        voiced: bool,
        now: u64,
    ) -> Outcome<Seq<i16>> {
        let heard = self.accept(batch, voiced, now);
        if heard.last_voiced is None {
            Outcome::Idle
        } else if heard.timed_out(config.silence_delay_ms, now) {
            verdict(heard.buffer, config.threshold() as nat, config.interpolation_threshold_ms)
        } else {
            Outcome::Waiting
        }
    }
}

/// The segmentation engine: one utterance buffer and its activity timer.
pub struct Segmenter {
    buffer: Vec<i16>,
    last_voiced_ms: Option<u64>,
}

impl View for Segmenter {
    type V = SegState;

    closed spec fn view(&self) -> SegState {
        SegState { buffer: self.buffer@, last_voiced: self.last_voiced_ms }
    }
}

/// Appends `batch` to `buffer`.
fn append_samples(buffer: &mut Vec<i16>, batch: &[i16])
    ensures
        final(buffer)@ == old(buffer)@ + batch@,
{
    let ghost before = buffer@;
    let mut i: usize = 0;
    while i < batch.len()
        invariant
            i <= batch@.len(),
            buffer@ == before + batch@.take(i as int),
        decreases batch@.len() - i,
    {
        buffer.push(batch[i]);
        i = i + 1;
        assert(batch@.take(i as int) == batch@.take(i - 1).push(batch@[i - 1]));
    }
    assert(batch@.take(i as int) == batch@);
}

impl Segmenter {
    /// The timer runs exactly while the buffer holds samples.
    pub open spec fn wf(&self) -> bool {
        self@.consistent()
    }

    /// An engine with no utterance in progress.
    pub fn new() -> (engine: Segmenter)
        ensures
            engine@ == SegState::idle(),
            engine.wf(),
    {
        Segmenter { buffer: Vec::new(), last_voiced_ms: None }
    }

    /// Whether no utterance is in progress.
    pub fn is_idle(&self) -> (idle: bool)
        ensures
            idle == (self@.last_voiced is None),
    {
        self.last_voiced_ms.is_none()
    }

    /// The number of samples accumulated so far.
    pub fn buffered(&self) -> (len: usize)
        ensures
            len == self@.buffer.len(),
    {
        self.buffer.len()
    }

    /// The moment voiced audio was last seen, if an utterance is in progress.
    pub fn last_voiced(&self) -> (at: Option<u64>)
        ensures
            at == self@.last_voiced,
    {
        self.last_voiced_ms
    }

    /// Takes in one batch with the classifier's answer for it. A voiced,
    /// non-empty batch is appended whole and restarts the timer; any other
    /// batch is discarded.
    pub fn accept(&mut self, batch: &[i16], voiced: bool, now_ms: u64)
        requires
            old(self).wf(),
        ensures
            final(self)@ == old(self)@.accept(batch@, voiced, now_ms),
            final(self).wf(),
    {
        if voiced && batch.len() > 0 {
            append_samples(&mut self.buffer, batch);
            self.last_voiced_ms = Some(now_ms);
        }
    }

    /// Whether an utterance is in progress and has been quiet for
    /// `delay_ms` or more at `now_ms`.
    pub fn timed_out(&self, delay_ms: u64, now_ms: u64) -> (fired: bool)
        ensures
            fired == self@.timed_out(delay_ms, now_ms),
    {
        match self.last_voiced_ms {
            Some(since) => {
                let quiet: u64 = if now_ms >= since {
                    now_ms - since
                } else {
                    0
                };
                quiet >= delay_ms
            },
            None => false,
        }
    }

    /// Ends the utterance in progress and returns to idle. A buffer of at
    /// least `threshold` samples is handed off as it is. A shorter one is
    /// dropped, unless an interpolation threshold is set and the buffer
    /// reaches its share of `threshold`: then it is stretched to exactly
    /// `threshold` samples and handed off.
    pub fn finalize(&mut self, threshold: usize, interpolation_ms: Option<u32>) -> (out: Outcome<
        Vec<i16>,
    >)
        ensures
            final(self)@ == SegState::idle(),
            final(self).wf(),
            out@ == verdict(old(self)@.buffer, threshold as nat, interpolation_ms),
    {
        let mut taken: Vec<i16> = Vec::new();
        core::mem::swap(&mut self.buffer, &mut taken);
        self.last_voiced_ms = None;
        let len: usize = taken.len();
        if len == 0 {
            Outcome::Idle
        } else if len >= threshold {
            Outcome::HandOff(taken)
        } else {
            match interpolation_ms {
                None => Outcome::Dropped,
                Some(ms) => {
                    assert(threshold * ms <= 0xffff_ffff_ffff_ffff * 0xffff_ffff)
                        by (nonlinear_arith)
                        requires
                            0 <= threshold <= 0xffff_ffff_ffff_ffff,
                            0 <= ms <= 0xffff_ffff,
                    ;
                    let least: u128 = (threshold as u128) * (ms as u128) / 1000;
                    if (len as u128) < least {
                        Outcome::Dropped
                    } else {
                        Outcome::HandOff(stretch(taken.as_slice(), threshold))
                    }
                },
            }
        }
    }

    /// One tick of the engine: takes in the batch drained at `now_ms`
    /// together with the classifier's answer for it, then finalizes the
    /// utterance if the silence timeout has fired.
    pub fn tick(&mut self, config: &EngineConfig, batch: &[i16], voiced: bool, now_ms: u64) -> (out:
        Outcome<Vec<i16>>)
        requires
            old(self).wf(),
            config.valid(),
        ensures
            final(self)@ == old(self)@.tick(*config, batch@, voiced, now_ms),
            out@ == old(self)@.tick_outcome(*config, batch@, voiced, now_ms),
            final(self).wf(),
    {
        self.accept(batch, voiced, now_ms);
        if self.last_voiced_ms.is_none() {
            Outcome::Idle
        } else if self.timed_out(config.silence_delay_ms, now_ms) {
            let threshold: u32 = config.min_length_threshold();
            self.finalize(threshold as usize, config.interpolation_threshold_ms)
        } else {
            Outcome::Waiting
        }
    }
}

} // verus!
