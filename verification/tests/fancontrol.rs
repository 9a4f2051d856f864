use tuxedo::tailord::error::FdoError;
use tuxedo::tailord::fancontrol::buffer::TemperatureBuffer;
use tuxedo::tailord::fancontrol::profile::{FanProfile, FanProfilePoint};
use tuxedo::tailord::fancontrol::runtime::{suitable_delay, FanRuntimeData};

fn p(temp: u8, fan: u8) -> FanProfilePoint {
    FanProfilePoint { temp, fan }
}

#[test]
fn test_suitable_delay() {
    let mut temp_buffer = TemperatureBuffer::new(20);

    // Test with no pressure.
    assert_eq!(suitable_delay(&temp_buffer, 0), 2000);

    // Test with max pressure.
    assert_eq!(suitable_delay(&temp_buffer, 255), 234);

    // Test with pressure 1.
    assert_eq!(suitable_delay(&temp_buffer, 2), 1733);

    // Test with pressure 1 but this time through temperature diff.
    temp_buffer.update(21);
    assert_eq!(suitable_delay(&temp_buffer, 0), 1733);
}

#[test]
fn delay_shrinks_with_pressure() {
    let buffer = TemperatureBuffer::new(40);
    let mut last = u64::MAX;
    for diff in (0..=30u8).step_by(2) {
        let d = suitable_delay(&buffer, diff);
        assert!(d <= last);
        assert!((234..=2000).contains(&d));
        last = d;
    }
    assert_eq!(suitable_delay(&buffer, 14), 735);
}

#[test]
fn buffer_tracks_latest_and_minimum() {
    let mut b = TemperatureBuffer::new(50);
    assert_eq!(b.get_latest(), 50);
    assert_eq!(b.diff_to_min_in_history(), 0);
    b.update(60);
    assert_eq!(b.get_latest(), 60);
    assert_eq!(b.diff_to_min_in_history(), 10);
    b.update(55);
    assert_eq!(b.diff_to_min_in_history(), 5);
    // After five updates the initial readings are gone.
    for t in [70, 71, 72, 73, 74] {
        b.update(t);
    }
    assert_eq!(b.get_latest(), 74);
    assert_eq!(b.diff_to_min_in_history(), 4);

    // The history is the last five readings: 30, 22, 21, 23, 24.
    let mut b = TemperatureBuffer::new(20);
    for t in [25, 30, 22, 21, 23, 24] {
        b.update(t);
    }
    assert_eq!(b.diff_to_min_in_history(), 3);
}

#[test]
fn default_curve_targets() {
    let profile = FanProfile::default();
    assert_eq!(profile.points().len(), 8);
    // Below the curve: the first point's speed.
    assert_eq!(profile.calc_target_fan_speed(20), 0);
    // Exactly on a point.
    assert_eq!(profile.calc_target_fan_speed(40), 22);
    // Interpolated and rounded down: 0 + 10 * 2 / 5.
    assert_eq!(profile.calc_target_fan_speed(27), 4);
    // 62 + 13 * 5 / 10 = 68.
    assert_eq!(profile.calc_target_fan_speed(75), 68);
    // Above the curve: full speed.
    assert_eq!(profile.calc_target_fan_speed(95), 100);
}

#[test]
fn hotter_never_slower() {
    let default = FanProfile::default();
    let loaded = FanProfile::load_config(vec![p(30, 5), p(55, 5), p(70, 60)]).unwrap();
    for profile in [&default, &loaded] {
        for t in 0..255u8 {
            assert!(profile.calc_target_fan_speed(t) <= profile.calc_target_fan_speed(t + 1));
        }
    }
}

#[test]
fn loading_refuses_empty_configuration() {
    match FanProfile::load_config(Vec::new()) {
        Err(FdoError::FileNotFound(msg)) => assert_eq!(msg, "Empty configuration"),
        other => panic!("unexpected result: {:?}", other),
    }
}

#[test]
fn loading_normalizes_points() {
    // Unsorted, one speed above 100 %, one speed below the minimum.
    let profile = FanProfile::load_config(vec![p(70, 30), p(20, 120), p(40, 10)]).unwrap();
    // Sorted by temperature; 120 % lowered to the 10 % that follows it; at
    // 70 °C at least 40 %; the last point does not reach 100 %, so 100 % at
    // 100 °C is appended.
    assert_eq!(profile.points(), &vec![p(20, 10), p(40, 10), p(70, 40), p(100, 100)]);

    // Sorting is stable for equal temperatures.
    let profile = FanProfile::load_config(vec![p(60, 50), p(30, 1), p(30, 2)]).unwrap();
    assert_eq!(profile.points(), &vec![p(30, 1), p(30, 2), p(60, 50), p(100, 100)]);

    // A point at or above 100 °C already runs at full speed: nothing appended.
    let profile = FanProfile::load_config(vec![p(10, 0), p(120, 5)]).unwrap();
    assert_eq!(profile.points(), &vec![p(10, 0), p(120, 100)]);
}

#[test]
fn loading_twice_changes_nothing() {
    let once = FanProfile::load_config(vec![p(80, 20), p(20, 0), p(55, 3)]).unwrap();
    let twice = FanProfile::load_config(once.points().clone()).unwrap();
    assert_eq!(once.points(), twice.points());
}

#[test]
fn falling_speeds_are_lowered() {
    // The speed never falls as the temperature rises: earlier points are
    // lowered to the later speed.
    let profile = FanProfile::load_config(vec![p(30, 50), p(40, 20)]).unwrap();
    assert_eq!(profile.points(), &vec![p(30, 20), p(40, 20), p(100, 100)]);
    // 60 °C is lowered to 30 %, then 70 °C is raised to its minimum of 40 %.
    let profile = FanProfile::load_config(vec![p(60, 80), p(70, 30)]).unwrap();
    assert_eq!(profile.points(), &vec![p(60, 30), p(70, 40), p(100, 100)]);
    assert_eq!(profile.calc_target_fan_speed(65), 35);
    assert_eq!(profile.calc_target_fan_speed(70), 40);
}

#[test]
fn control_step_moves_toward_target() {
    let mut data = FanRuntimeData::new(0, 0, 60, FanProfile::default());
    let step = data.control_step(Some(60));
    assert_eq!(step.current_temp, 60);
    assert_eq!(step.target_fan_speed, 45);
    // Increment 45 / 4 + 45 / 50 = 11.
    assert_eq!(step.write_speed, Some(11));
    assert_eq!(data.fan_speed, 11);
    // Pressure 0 + 45 / 2 = 22 capped at 15.
    assert_eq!(step.delay_ms, 234);

    // A failed reading keeps the latest temperature.
    let step = data.control_step(None);
    assert_eq!(step.current_temp, 60);
    assert_eq!(data.fan_speed, 19);

    // At the target the speed still drops by target / 50.
    let mut data = FanRuntimeData::new(0, 100, 95, FanProfile::default());
    let step = data.control_step(Some(95));
    assert_eq!(step.target_fan_speed, 100);
    assert_eq!(step.write_speed, Some(98));

    // Below 50 % a target only 2 points away does not raise the speed.
    let mut data = FanRuntimeData::new(0, 8, 30, FanProfile::default());
    let step = data.control_step(Some(30));
    assert_eq!(step.target_fan_speed, 10);
    assert_eq!(step.write_speed, None);
    assert_eq!(data.fan_speed, 8);
}

#[test]
fn update_temp_and_set_speed() {
    let mut data = FanRuntimeData::new(1, 30, 40, FanProfile::default());
    assert_eq!(data.update_temp(Some(44)), 44);
    assert_eq!(data.update_temp(None), 44);
    assert!(!data.set_speed(30));
    assert!(data.set_speed(31));
    assert_eq!(data.fan_speed, 31);
}
