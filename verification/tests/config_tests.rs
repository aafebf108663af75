use wtop::config::{AppConfig, ProcessSortBy, ThemeMode};

#[test]
fn test_sampling_rate_cycle() {
    let mut cfg = AppConfig {
        sampling_rate_ms: 1000,
        ..Default::default()
    };

    // Faster (lower interval)
    cfg.cycle_sampling_rate(false);
    assert_eq!(cfg.sampling_rate_ms, 500);

    cfg.cycle_sampling_rate(false);
    assert_eq!(cfg.sampling_rate_ms, 250);

    // Cannot go below 250
    cfg.cycle_sampling_rate(false);
    assert_eq!(cfg.sampling_rate_ms, 250);

    // Slower (higher interval)
    cfg.cycle_sampling_rate(true);
    assert_eq!(cfg.sampling_rate_ms, 500);
}

#[test]
fn default_config_values() {
    let cfg = AppConfig::default();
    assert_eq!(cfg.sampling_rate_ms, 1000);
    assert_eq!(cfg.theme, ThemeMode::Dark);
    assert_eq!(cfg.proc_sort_by, ProcessSortBy::Cpu);
    assert!(cfg.proc_sort_desc);
}

#[test]
fn sampling_rate_stops_at_slowest_preset() {
    let mut cfg = AppConfig { sampling_rate_ms: 2000, ..Default::default() };
    cfg.cycle_sampling_rate(true);
    assert_eq!(cfg.sampling_rate_ms, 5000);
    cfg.cycle_sampling_rate(true);
    assert_eq!(cfg.sampling_rate_ms, 5000);
}

#[test]
fn sampling_rate_off_preset_snaps_to_neighbours() {
    let mut cfg = AppConfig { sampling_rate_ms: 1200, ..Default::default() };
    cfg.cycle_sampling_rate(true);
    assert_eq!(cfg.sampling_rate_ms, 2000);
    let mut cfg = AppConfig { sampling_rate_ms: 1200, ..Default::default() };
    cfg.cycle_sampling_rate(false);
    assert_eq!(cfg.sampling_rate_ms, 1000);
    let mut cfg = AppConfig { sampling_rate_ms: 9000, ..Default::default() };
    cfg.cycle_sampling_rate(true);
    assert_eq!(cfg.sampling_rate_ms, 9000);
    cfg.cycle_sampling_rate(false);
    assert_eq!(cfg.sampling_rate_ms, 5000);
    let mut cfg = AppConfig { sampling_rate_ms: 10, ..Default::default() };
    cfg.cycle_sampling_rate(false);
    assert_eq!(cfg.sampling_rate_ms, 10);
    cfg.cycle_sampling_rate(true);
    assert_eq!(cfg.sampling_rate_ms, 250);
}

#[test]
fn sampling_rate_round_trip_on_every_preset() {
    for &r in &[500u64, 1000, 2000, 5000] {
        let mut cfg = AppConfig { sampling_rate_ms: r, ..Default::default() };
        cfg.cycle_sampling_rate(false);
        cfg.cycle_sampling_rate(true);
        assert_eq!(cfg.sampling_rate_ms, r);
    }
    for &r in &[250u64, 500, 1000, 2000] {
        let mut cfg = AppConfig { sampling_rate_ms: r, ..Default::default() };
        cfg.cycle_sampling_rate(true);
        cfg.cycle_sampling_rate(false);
        assert_eq!(cfg.sampling_rate_ms, r);
    }
}

#[test]
fn sampling_rate_steps_follow_the_documented_presets() {
    let mut cfg = AppConfig { sampling_rate_ms: 1000, ..Default::default() };
    cfg.cycle_sampling_rate(true);
    assert_eq!(cfg.sampling_rate_ms, 2000);
    cfg.cycle_sampling_rate(true);
    assert_eq!(cfg.sampling_rate_ms, 5000);
    cfg.cycle_sampling_rate(false);
    assert_eq!(cfg.sampling_rate_ms, 2000);
    cfg.cycle_sampling_rate(false);
    assert_eq!(cfg.sampling_rate_ms, 1000);
}
