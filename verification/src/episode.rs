//! What holds of the engine over whole runs of ticks.
use crate::config::EngineConfig;
use crate::segmenter::{elapsed, min_samples, verdict, Outcome, SegState};
use crate::stretch::stretched;
use vstd::prelude::*;

verus! {

/// What one tick is given: the batch drained from the queue, the
/// classifier's answer for it, and the time.
pub struct TickInput {
    pub batch: Seq<i16>,
    pub voiced: bool,
    pub now: u64,
}

/// The state after the ticks of `inputs`, in order, starting from `start`.
pub open spec fn run(config: EngineConfig, start: SegState, inputs: Seq<TickInput>) -> SegState
    decreases inputs.len(),
{
    if inputs.len() == 0 {
        start
    } else {
        let input = inputs.last();
        run(config, start, inputs.drop_last()).tick(config, input.batch, input.voiced, input.now)
    }
}

/// Whether no tick of the run fires the silence timeout, so that the run
/// lies within one episode.
pub open spec fn within_episode(config: EngineConfig, start: SegState, inputs: Seq<TickInput>)
    -> bool
    decreases inputs.len(),
{
    inputs.len() == 0 || {
        let input = inputs.last();
        let before = run(config, start, inputs.drop_last());
        &&& within_episode(config, start, inputs.drop_last())
        &&& !before.accept(input.batch, input.voiced, input.now).timed_out(
            config.silence_delay_ms,
            input.now,
        )
    }
}

/// The voiced batches of `inputs`, one after the other.
pub open spec fn voiced_samples(inputs: Seq<TickInput>) -> Seq<i16>
    decreases inputs.len(),
{
    if inputs.len() == 0 {
        Seq::empty()
    } else if inputs.last().voiced {
        voiced_samples(inputs.drop_last()) + inputs.last().batch
    } else {
        voiced_samples(inputs.drop_last())
    }
}

/// The summed length of the voiced batches of `inputs`.
pub open spec fn voiced_total(inputs: Seq<TickInput>) -> nat
    decreases inputs.len(),
{
    if inputs.len() == 0 {
        0
    } else if inputs.last().voiced {
        voiced_total(inputs.drop_last()) + inputs.last().batch.len()
    } else {
        voiced_total(inputs.drop_last())
    }
}

/// A tick keeps the timer and the buffer in step: if the timer runs exactly
/// while the buffer holds samples before the tick, it does so after it.
pub proof fn lemma_tick_keeps_consistency(
    state: SegState,
    config: EngineConfig,
    batch: Seq<i16>,
    voiced: bool,
    now: u64,
)
    requires
        state.consistent(),
    ensures
        state.accept(batch, voiced, now).consistent(),
        state.tick(config, batch, voiced, now).consistent(),
{
}

/// In every state that the engine reaches from idle, the timer runs exactly
/// while the buffer holds samples.
pub proof fn lemma_reachable_states_consistent(config: EngineConfig, inputs: Seq<TickInput>)
    ensures
        run(config, SegState::idle(), inputs).consistent(),
    decreases inputs.len(),
{
    if inputs.len() > 0 {
        lemma_reachable_states_consistent(config, inputs.drop_last());
    }
}

/// Whatever a finished utterance comes to (handed off as it is, stretched,
/// or dropped), the tick that ends it leaves the engine idle, with an empty
/// buffer and no timer, and ending an idle engine again changes nothing.
pub proof fn lemma_timeout_resets(
    state: SegState,
    config: EngineConfig,
    batch: Seq<i16>,
    voiced: bool,
    now: u64,
)
    requires
        state.accept(batch, voiced, now).timed_out(config.silence_delay_ms, now),
    ensures
        state.tick(config, batch, voiced, now) == SegState::idle(),
        state.tick(config, batch, voiced, now).buffer.len() == 0,
        state.tick(config, batch, voiced, now).last_voiced is None,
        state.tick_outcome(config, batch, voiced, now) != Outcome::<Seq<i16>>::Waiting,
        verdict(
            SegState::idle().buffer,
            config.threshold() as nat,
            config.interpolation_threshold_ms,
        ) == Outcome::<Seq<i16>>::Idle,
{
}

/// Within one episode the buffer only grows: it is the buffer at the start
/// followed by every voiced batch, and its length is the length at the start
/// plus the summed lengths of the voiced batches.
pub proof fn lemma_episode_accumulates(
    config: EngineConfig,
    start: SegState,
    inputs: Seq<TickInput>,
)
    requires
        within_episode(config, start, inputs),
    ensures
        run(config, start, inputs).buffer == start.buffer + voiced_samples(inputs),
        run(config, start, inputs).buffer.len() == start.buffer.len() + voiced_total(inputs),
        voiced_samples(inputs).len() == voiced_total(inputs),
        run(config, start, inputs).buffer.len() >= start.buffer.len(),
    decreases inputs.len(),
{
    if inputs.len() == 0 {
        assert(start.buffer + voiced_samples(inputs) == start.buffer);
    } else {
        let earlier = inputs.drop_last();
        let input = inputs.last();
        lemma_episode_accumulates(config, start, earlier);
        let before = run(config, start, earlier);
        if input.voiced && input.batch.len() > 0 {
            assert((start.buffer + voiced_samples(earlier)) + input.batch == start.buffer + (
            voiced_samples(earlier) + input.batch));
        } else if input.voiced {
            assert(voiced_samples(earlier) + input.batch == voiced_samples(earlier));
        }
    }
}

/// Within one episode the buffer never shrinks from one tick to the next.
pub proof fn lemma_episode_monotonic(
    config: EngineConfig,
    start: SegState,
    inputs: Seq<TickInput>,
    upto: int,
)
    requires
        within_episode(config, start, inputs),
        0 <= upto <= inputs.len(),
    ensures
        within_episode(config, start, inputs.take(upto)),
        run(config, start, inputs.take(upto)).buffer.len() <= run(
            config,
            start,
            inputs,
        ).buffer.len(),
    decreases inputs.len(),
{
    if upto == inputs.len() {
        assert(inputs.take(upto) == inputs);
    } else {
        let earlier = inputs.drop_last();
        lemma_episode_monotonic(config, start, earlier, upto);
        assert(earlier.take(upto) == inputs.take(upto));
    }
}

/// While an utterance is in progress and nothing voiced arrives, a tick
/// changes nothing as long as the quiet time is below the delay, and ends
/// the utterance once the quiet time reaches the delay.
pub proof fn lemma_silence_boundary(
    state: SegState,
    config: EngineConfig,
    batch: Seq<i16>,
    since: u64,
    now: u64,
)
    requires
        state.last_voiced == Some(since),
        since <= now,
    ensures
        now - since < config.silence_delay_ms ==> state.tick(config, batch, false, now) == state
            && state.tick_outcome(config, batch, false, now) == Outcome::<Seq<i16>>::Waiting,
        now - since >= config.silence_delay_ms ==> state.tick(config, batch, false, now)
            == SegState::idle() && state.tick_outcome(config, batch, false, now) == verdict(
            state.buffer,
            config.threshold() as nat,
            config.interpolation_threshold_ms,
        ),
{
    assert(elapsed(since, now) == now - since);
}

/// An utterance that ends shorter than the minimum length, with no
/// interpolation threshold set, is dropped: nothing is handed off.
pub proof fn lemma_short_utterance_dropped(
    state: SegState,
    config: EngineConfig,
    batch: Seq<i16>,
    voiced: bool,
    now: u64,
)
    requires
        state.consistent(),
        config.interpolation_threshold_ms is None,
        state.accept(batch, voiced, now).timed_out(config.silence_delay_ms, now),
        state.accept(batch, voiced, now).buffer.len() < config.threshold(),
    ensures
        state.tick_outcome(config, batch, voiced, now) == Outcome::<Seq<i16>>::Dropped,
        verdict(state.accept(batch, voiced, now).buffer, config.threshold() as nat, None)
            == Outcome::<Seq<i16>>::Dropped,
{
}

/// Whatever is handed off has at least the minimum length: a buffer that
/// is long enough goes out as it is, and a shorter one goes out only
/// stretched to exactly the minimum length, and only if it reaches the
/// interpolation floor.
pub proof fn lemma_hand_off_reaches_threshold(
    buffer: Seq<i16>,
    threshold: nat,
    interpolation_ms: Option<u32>,
)
    ensures
        match verdict(buffer, threshold, interpolation_ms) {
            Outcome::HandOff(samples) => {
                &&& samples.len() >= threshold
                &&& buffer.len() > 0
                &&& buffer.len() >= threshold ==> samples == buffer
                &&& buffer.len() < threshold ==> {
                    &&& interpolation_ms is Some
                    &&& buffer.len() >= min_samples(threshold, interpolation_ms->0 as nat)
                    &&& samples == stretched(buffer, threshold)
                    &&& samples.len() == threshold
                }
            },
            Outcome::Dropped => 0 < buffer.len() < threshold,
            Outcome::Idle => buffer.len() == 0,
            Outcome::Waiting => false,
        },
{
}

/// A batch that is not voiced is discarded: it is appended to nothing, and
/// an idle engine stays idle.
pub proof fn lemma_unvoiced_discarded(
    state: SegState,
    config: EngineConfig,
    batch: Seq<i16>,
    now: u64,
)
    ensures
        state.accept(batch, false, now) == state,
        SegState::idle().tick(config, batch, false, now) == SegState::idle(),
        SegState::idle().tick_outcome(config, batch, false, now) == Outcome::<Seq<i16>>::Idle,
{
}

} // verus!
