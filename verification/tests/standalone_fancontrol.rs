use std::collections::VecDeque;

use tuxedo::tuxedo_fancontrol::config::{
    Config, ConfigError, FanData, FanEvolution, TempProfile,
};
use tuxedo::tuxedo_fancontrol::fan::{
    add_temp, calc_temp_load, s_temp_load, speed_plan, temp_segment, SpeedPlan, TempLoad,
    TempSegment,
};

fn tp(temp: u8, fan: u8) -> TempProfile {
    TempProfile { temp, fan }
}

fn config(history_store: u32, check_delay: u64, temp_profile: Vec<TempProfile>) -> Config {
    Config { history_store, check_delay, temp_profile, version: 1 }
}

#[test]
fn config_checks() {
    let good = config(90, 1000, vec![tp(40, 10), tp(60, 40), tp(90, 100)]);
    let report = good.check();
    assert_eq!(report.error, None);
    assert!(!report.low_history_store);
    assert_eq!(good.history_max_entries(), 90);

    let mut old = config(90, 1000, vec![]);
    old.version = 0;
    assert_eq!(old.check().error, Some(ConfigError::ObsoleteVersion));

    assert_eq!(
        config(20, 1000, vec![]).check().error,
        Some(ConfigError::HistoryTooShortForCheckDelay)
    );
    assert_eq!(config(29, 100, vec![]).check().error, Some(ConfigError::HistoryStoreTooLow));
    let low = config(40, 99, vec![]).check();
    assert!(low.low_history_store);
    assert_eq!(low.error, Some(ConfigError::CheckDelayTooLow));
    assert_eq!(config(9000, 10001, vec![]).check().error, Some(ConfigError::CheckDelayTooHigh));
    assert_eq!(
        config(90, 1000, vec![tp(101, 10)]).check().error,
        Some(ConfigError::TemperatureAbove100)
    );
    assert_eq!(
        config(90, 1000, vec![tp(50, 101)]).check().error,
        Some(ConfigError::FanSpeedAbove100)
    );
    assert_eq!(
        config(90, 1000, vec![tp(50, 10), tp(50, 20)]).check().error,
        Some(ConfigError::TemperatureNotIncreasing)
    );
    assert_eq!(
        config(90, 1000, vec![tp(50, 10), tp(60, 10)]).check().error,
        Some(ConfigError::FanSpeedNotIncreasing)
    );
    assert_eq!(
        config(90, 1000, vec![tp(0, 10)]).check().error,
        Some(ConfigError::TemperatureNotIncreasing)
    );
}

#[test]
fn temperature_averages() {
    let history: VecDeque<u8> = (1..=10).collect();
    assert_eq!(s_temp_load(&history, Some(1)), 10);
    assert_eq!(s_temp_load(&history, Some(5)), 8);
    assert_eq!(s_temp_load(&history, Some(15)), 5);
    assert_eq!(s_temp_load(&history, None), 5);
    let load = calc_temp_load(&history);
    assert_eq!(load, TempLoad { l1: 10, l5: 8, l15: 5, l30: 5, lall: 5 });
}

#[test]
fn history_is_bounded() {
    let mut history: VecDeque<u8> = VecDeque::new();
    for t in 0..10u8 {
        add_temp(&mut history, 3, t);
        assert!(history.len() <= 3);
    }
    assert_eq!(history, VecDeque::from(vec![7, 8, 9]));
    let mut single: VecDeque<u8> = VecDeque::new();
    add_temp(&mut single, 0, 5);
    add_temp(&mut single, 0, 6);
    assert_eq!(single, VecDeque::from(vec![6]));
}

#[test]
fn temperature_segments() {
    let profile = vec![tp(40, 10), tp(60, 40), tp(90, 100)];
    assert_eq!(temp_segment(30, &profile), TempSegment::Below(10));
    assert_eq!(temp_segment(40, &profile), TempSegment::Between(tp(40, 10), tp(60, 40)));
    assert_eq!(temp_segment(75, &profile), TempSegment::Between(tp(60, 40), tp(90, 100)));
    assert_eq!(temp_segment(90, &profile), TempSegment::Above(100));
    assert_eq!(temp_segment(95, &vec![tp(50, 30)]), TempSegment::Above(30));
}

fn fan_data(last_update_loop: u32, fan_speed: u8, evolution: FanEvolution) -> FanData {
    FanData { last_update_loop, last_fan_evolution: evolution, fan_speed }
}

#[test]
fn speed_plans() {
    let load = TempLoad { l1: 60, l5: 58, l15: 55, l30: 50, lall: 45 };
    assert_eq!(speed_plan(80, &fan_data(3, 20, FanEvolution::Increasing), &load), SpeedPlan::Hold);
    assert_eq!(speed_plan(24, &fan_data(10, 20, FanEvolution::Increasing), &load), SpeedPlan::Hold);
    assert_eq!(speed_plan(22, &fan_data(20, 20, FanEvolution::Increasing), &load), SpeedPlan::Hold);
    // Only changes made less than 15 (30) loops ago hold the speed.
    assert_eq!(
        speed_plan(45, &fan_data(15, 40, FanEvolution::Increasing), &load),
        SpeedPlan::Adjust { halve: false, d5: 2, d15: 5, d30: 10, dall: 15 }
    );
    assert_eq!(speed_plan(45, &fan_data(14, 40, FanEvolution::Increasing), &load), SpeedPlan::Hold);
    assert_eq!(
        speed_plan(22, &fan_data(30, 20, FanEvolution::Increasing), &load),
        SpeedPlan::Adjust { halve: false, d5: 2, d15: 5, d30: 10, dall: 15 }
    );
    assert_eq!(speed_plan(22, &fan_data(29, 20, FanEvolution::Increasing), &load), SpeedPlan::Hold);
    assert_eq!(speed_plan(0, &fan_data(40, 20, FanEvolution::Increasing), &load), SpeedPlan::Stop);
    assert_eq!(
        speed_plan(80, &fan_data(40, 20, FanEvolution::Decreasing), &load),
        SpeedPlan::Adjust { halve: true, d5: 2, d15: 5, d30: 10, dall: 15 }
    );
    assert_eq!(
        speed_plan(80, &fan_data(40, 20, FanEvolution::Increasing), &load),
        SpeedPlan::Adjust { halve: false, d5: 2, d15: 5, d30: 10, dall: 15 }
    );
}

#[test]
fn fan_data_updates() {
    let mut data = fan_data(7, 30, FanEvolution::Decreasing);
    assert!(data.set_speed(50));
    assert_eq!(data.last_fan_evolution, FanEvolution::Increasing);
    assert_eq!(data.last_update_loop, 0);
    assert!(!data.set_speed(150));

    let mut data = fan_data(7, 30, FanEvolution::Decreasing);
    assert_eq!(data.after_loop(30, None), None);
    assert_eq!(data.last_update_loop, 0);
    let mut data = fan_data(7, 30, FanEvolution::Decreasing);
    assert_eq!(data.after_loop(60, None), None);
    assert_eq!(data.last_update_loop, 8);
    assert_eq!(data.after_loop(60, Some(45)), Some(45));
    assert_eq!(data.fan_speed, 45);
    assert_eq!(data.last_update_loop, 0);
    assert_eq!(data.after_loop(60, Some(45)), None);
    assert_eq!(data.last_update_loop, 1);
}
