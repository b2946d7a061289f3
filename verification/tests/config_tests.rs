use falling_notes::config::{PlaybackConfig, MAX_SPEED_PERMILLE, NORMAL_SPEED_PERMILLE};

#[test]
fn new_config_is_normal_speed_without_offset() {
    let c = PlaybackConfig::new(true);
    assert_eq!(c.speed_permille(), 1_000);
    assert_eq!(c.speed_permille(), NORMAL_SPEED_PERMILLE);
    assert_eq!(c.playback_offset_us(), 0);
    assert!(c.play_along());
    assert!(!PlaybackConfig::new(false).play_along());
}

#[test]
fn speed_must_stay_above_zero() {
    let mut c = PlaybackConfig::new(false);
    assert!(!c.set_speed_permille(0));
    assert_eq!(c.speed_permille(), 1_000);
    assert!(c.set_speed_permille(1));
    assert_eq!(c.speed_permille(), 1);
}

#[test]
fn speed_has_a_ceiling() {
    let mut c = PlaybackConfig::new(false);
    assert!(c.set_speed_permille(MAX_SPEED_PERMILLE));
    assert_eq!(c.speed_permille(), 100_000);
    assert!(!c.set_speed_permille(MAX_SPEED_PERMILLE + 1));
    assert_eq!(c.speed_permille(), 100_000);
}

#[test]
fn offset_shifts_and_stops_at_the_ends() {
    let mut c = PlaybackConfig::new(false);
    c.shift_offset(-5_000_000);
    assert_eq!(c.playback_offset_us(), -5_000_000);
    c.shift_offset(10_000);
    assert_eq!(c.playback_offset_us(), -4_990_000);
    c.shift_offset(i64::MAX);
    c.shift_offset(i64::MAX);
    assert_eq!(c.playback_offset_us(), i64::MAX);
    c.shift_offset(i64::MIN);
    c.shift_offset(i64::MIN);
    assert_eq!(c.playback_offset_us(), i64::MIN);
}
