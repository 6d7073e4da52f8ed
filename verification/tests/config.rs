use resyn::config::{ConfigError, EngineConfig};

#[test]
fn standard_configuration() {
    let config = EngineConfig::standard();
    assert!(config.is_valid());
    assert_eq!(config.sample_rate, 16000);
    assert_eq!(config.silence_delay_ms, 100);
    assert_eq!(config.interpolation_threshold_ms, None);
    assert_eq!(config.tick_period_ms, 25);
    assert_eq!(config.ring_buffer_capacity_seconds, 10);
    assert_eq!(config.min_length_threshold(), 16400);
    assert_eq!(config.ring_capacity(), 160000);
}

#[test]
fn threshold_is_one_second_and_one_tick() {
    let at = |sample_rate: u32, tick_ms: u32| -> u32 {
        EngineConfig::new(sample_rate, 100, None, tick_ms, 1).unwrap().min_length_threshold()
    };
    assert_eq!(at(16000, 25), 16400);
    assert_eq!(at(16000, 10), 16160);
    assert_eq!(at(8000, 1000), 16000);
    assert_eq!(at(44100, 30), 44100 + 44100 / 33);
    assert_eq!(at(1, 1), 1);
    assert_eq!(at(0x7fff_ffff, 1000), 0xffff_fffe);
}

#[test]
fn rejects_values_out_of_range() {
    assert_eq!(EngineConfig::new(0, 100, None, 25, 10).err(), Some(ConfigError::SampleRate));
    assert_eq!(EngineConfig::new(0x8000_0000, 100, None, 25, 10).err(), Some(ConfigError::SampleRate));
    assert_eq!(EngineConfig::new(16000, 100, None, 0, 10).err(), Some(ConfigError::TickPeriod));
    assert_eq!(EngineConfig::new(16000, 100, None, 1001, 10).err(), Some(ConfigError::TickPeriod));
    assert_eq!(EngineConfig::new(16000, 100, Some(1000), 25, 10).err(), Some(ConfigError::Interpolation));
    assert_eq!(EngineConfig::new(0, 100, Some(1000), 0, 10).err(), Some(ConfigError::SampleRate));
    assert_eq!(EngineConfig::new(1, 100, Some(1000), 0, 10).err(), Some(ConfigError::TickPeriod));
}

#[test]
fn accepts_values_at_the_edges() {
    let config = EngineConfig::new(0x7fff_ffff, u64::MAX, Some(999), 1000, u32::MAX).unwrap();
    assert!(config.is_valid());
    assert_eq!(config.ring_capacity(), 0x7fff_ffff_u64 * 0xffff_ffff_u64);
    let low = EngineConfig::new(1, 0, Some(0), 1, 0).unwrap();
    assert!(low.is_valid());
    assert_eq!(low.ring_capacity(), 0);
}

#[test]
fn hand_made_configuration_is_checked() {
    let mut config = EngineConfig::standard();
    config.tick_period_ms = 0;
    assert!(!config.is_valid());
    config.tick_period_ms = 25;
    config.interpolation_threshold_ms = Some(1000);
    assert!(!config.is_valid());
    config.interpolation_threshold_ms = Some(999);
    assert!(config.is_valid());
}
