//! The configuration that the segmentation engine is built from.
use vstd::prelude::*;

verus! {

/// Largest sample rate the engine takes, in samples per second. Twice this
/// rate still fits a `u32`, so the minimum utterance length does too.
pub const MAX_SAMPLE_RATE: u32 = 0x7fff_ffff;

/// Longest tick period, in milliseconds: one tick per second.
pub const MAX_TICK_PERIOD_MS: u32 = 1000;

/// Largest interpolation threshold, in milliseconds.
pub const MAX_INTERPOLATION_MS: u32 = 999;

/// Why a set of configuration values was turned down.
#[derive(Debug, Clone, Copy, PartialEq, Eq, Structural)]
pub enum ConfigError {
    /// The sample rate is zero or above [`MAX_SAMPLE_RATE`].
    SampleRate,
    /// The tick period is zero or above [`MAX_TICK_PERIOD_MS`].
    TickPeriod,
    /// The interpolation threshold is above [`MAX_INTERPOLATION_MS`].
    Interpolation,
}

/// Everything the engine needs to know, fixed once at startup and handed to
/// each component.
#[derive(Debug, Clone, Copy)]
pub struct EngineConfig {
    /// Samples per second of the mono stream.
    pub sample_rate: u32,
    /// Quiet time after which an utterance counts as finished.
    pub silence_delay_ms: u64,
    /// When present, short utterances are stretched instead of dropped,
    /// unless they are shorter than this share of the minimum length.
    pub interpolation_threshold_ms: Option<u32>,
    /// Period of the segmentation loop.
    pub tick_period_ms: u32,
    /// Seconds of audio that the queue between capture and segmentation holds.
    pub ring_buffer_capacity_seconds: u32,
}

/// Whether the sample rate is one the engine takes.
pub open spec fn sample_rate_ok(sample_rate: u32) -> bool {
    1 <= sample_rate <= MAX_SAMPLE_RATE
}

/// Whether the tick period is one the engine takes.
pub open spec fn tick_period_ok(tick_period_ms: u32) -> bool {
    1 <= tick_period_ms <= MAX_TICK_PERIOD_MS
}

/// Whether the interpolation setting is one the engine takes.
pub open spec fn interpolation_ok(interpolation_threshold_ms: Option<u32>) -> bool {
    match interpolation_threshold_ms {
        Some(ms) => ms <= MAX_INTERPOLATION_MS,
        None => true,
    }
}

/// The minimum utterance length in samples: one second of audio plus one
/// tick's worth, `sample_rate + sample_rate / (1000 / tick_period_ms)`.
pub open spec fn min_length(sample_rate: u32, tick_period_ms: u32) -> int {
    sample_rate + (sample_rate as int) / (1000int / (tick_period_ms as int))
}

impl EngineConfig {
    /// Whether every value is in the range the engine takes.
    pub open spec fn valid(&self) -> bool {
        &&& sample_rate_ok(self.sample_rate)
        &&& tick_period_ok(self.tick_period_ms)
        &&& interpolation_ok(self.interpolation_threshold_ms)
    }

    /// The minimum utterance length that this configuration asks for.
    pub open spec fn threshold(&self) -> int {
        min_length(self.sample_rate, self.tick_period_ms)
    }

    /// The number of samples that the queue between capture and segmentation
    /// holds.
    pub open spec fn ring_samples(&self) -> int {
        self.sample_rate * self.ring_buffer_capacity_seconds
    }

    /// Checks the values and builds the configuration. The first value out
    /// of range, in the order sample rate, tick period, interpolation
    /// threshold, names the error.
    pub fn new(
        sample_rate: u32,
        silence_delay_ms: u64,
        interpolation_threshold_ms: Option<u32>,
        tick_period_ms: u32,
        ring_buffer_capacity_seconds: u32,
    ) -> (made: Result<EngineConfig, ConfigError>)
        ensures
            match made {
                Ok(config) => {
                    &&& config.valid()
                    &&& config.sample_rate == sample_rate
                    &&& config.silence_delay_ms == silence_delay_ms
                    &&& config.interpolation_threshold_ms == interpolation_threshold_ms
                    &&& config.tick_period_ms == tick_period_ms
                    &&& config.ring_buffer_capacity_seconds == ring_buffer_capacity_seconds
                },
                Err(ConfigError::SampleRate) => !sample_rate_ok(sample_rate),
                Err(ConfigError::TickPeriod) => sample_rate_ok(sample_rate) && !tick_period_ok(
                    tick_period_ms,
                ),
                Err(ConfigError::Interpolation) => sample_rate_ok(sample_rate) && tick_period_ok(
                    tick_period_ms,
                ) && !interpolation_ok(interpolation_threshold_ms),
            },
            made is Ok <==> sample_rate_ok(sample_rate) && tick_period_ok(tick_period_ms)
                && interpolation_ok(interpolation_threshold_ms),
    {
        if sample_rate == 0 || sample_rate > MAX_SAMPLE_RATE {
            return Err(ConfigError::SampleRate);
        }
        if tick_period_ms == 0 || tick_period_ms > MAX_TICK_PERIOD_MS {
            return Err(ConfigError::TickPeriod);
        }
        if let Some(ms) = interpolation_threshold_ms {
            if ms > MAX_INTERPOLATION_MS {
                return Err(ConfigError::Interpolation);
            }
        }
        Ok(
            EngineConfig {
                sample_rate,
                silence_delay_ms,
                interpolation_threshold_ms,
                tick_period_ms,
                ring_buffer_capacity_seconds,
            },
        )
    }

    /// A 16 kHz stream polled every 25 ms, a 100 ms silence timeout, no
    /// interpolation and ten seconds of queue.
    pub fn standard() -> (config: EngineConfig)
        ensures
            config.valid(),
            config.sample_rate == 16000,
            config.silence_delay_ms == 100,
            config.interpolation_threshold_ms is None,
            config.tick_period_ms == 25,
            config.ring_buffer_capacity_seconds == 10,
            config.threshold() == 16400,
    {
        assert(1000int / 25 == 40 && 16000int / 40 == 400) by (nonlinear_arith);
        EngineConfig {
            sample_rate: 16000,
            silence_delay_ms: 100,
            interpolation_threshold_ms: None,
            tick_period_ms: 25,
            ring_buffer_capacity_seconds: 10,
        }
    }

    /// Whether every value is in the range the engine takes.
    pub fn is_valid(&self) -> (ok: bool)
        ensures
            ok == self.valid(),
    {
        let interpolation_in_range = match self.interpolation_threshold_ms {
            Some(ms) => ms <= MAX_INTERPOLATION_MS,
            None => true,
        };
        1 <= self.sample_rate && self.sample_rate <= MAX_SAMPLE_RATE && 1 <= self.tick_period_ms
            && self.tick_period_ms <= MAX_TICK_PERIOD_MS && interpolation_in_range
    }

    /// The minimum utterance length in samples.
    pub fn min_length_threshold(&self) -> (threshold: u32)
        requires
            self.valid(),
        ensures
            threshold == self.threshold(),
            self.sample_rate <= threshold <= 2 * self.sample_rate,
    {
        let ticks_per_second: u32 = 1000 / self.tick_period_ms;
        assert(1 <= ticks_per_second <= 1000) by (nonlinear_arith)
            requires
                ticks_per_second == 1000int / (self.tick_period_ms as int),
                1 <= self.tick_period_ms <= 1000,
        ;
        let per_tick: u32 = self.sample_rate / ticks_per_second;
        assert(0 <= per_tick <= self.sample_rate) by (nonlinear_arith)
            requires
                per_tick == (self.sample_rate as int) / (ticks_per_second as int),
                1 <= ticks_per_second,
                0 <= self.sample_rate,
        ;
        self.sample_rate + per_tick
    }

    /// The number of samples that the queue between capture and segmentation
    /// holds: the configured seconds of audio at the sample rate.
    pub fn ring_capacity(&self) -> (samples: u64)
        ensures
            samples == self.ring_samples(),
    {
        assert(self.sample_rate * self.ring_buffer_capacity_seconds <= 0xffff_ffff * 0xffff_ffff)
            by (nonlinear_arith)
            requires
                0 <= self.sample_rate <= 0xffff_ffff,
                0 <= self.ring_buffer_capacity_seconds <= 0xffff_ffff,
        ;
        (self.sample_rate as u64) * (self.ring_buffer_capacity_seconds as u64)
    }
}

} // verus!
