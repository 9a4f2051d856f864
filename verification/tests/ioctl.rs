use tuxedo::ioctl::buffer::{guarded_buffer, strip_overflow_guard};
use tuxedo::ioctl::clevo::{fan_temperature_clevo, has_fan_info, is_clevo};
use tuxedo::ioctl::error::IoctlError;
use tuxedo::ioctl::hal::HwManufacturer;
use tuxedo::ioctl::high_level::{
    detect_hw, fan_info_register, fan_speed_argument_clevo, fan_speed_percent_from_raw,
    fan_speed_raw_clevo, fan_speed_raw_from_info, fan_speed_raw_uniwill,
    fan_temperature_from_info, fans_auto_argument, webcam_argument, webcam_enabled, Fan,
    FanInfoRegister, Hw, PerformanceProfile,
};
use tuxedo::ioctl::uniwill;

#[test]
fn fan_from_index() {
    assert_eq!(Fan::try_from_u8(0), Some(Fan::Fan1));
    assert_eq!(Fan::try_from_u8(1), Some(Fan::Fan2));
    assert_eq!(Fan::try_from_u8(2), Some(Fan::Fan3));
    assert_eq!(Fan::try_from_u8(3), None);
}

#[test]
fn clevo_profile_arguments() {
    assert_eq!(PerformanceProfile::default(), PerformanceProfile::Performance);
    assert_eq!(PerformanceProfile::Quiet.as_clevo_arg(), 0);
    assert_eq!(PerformanceProfile::Powersave.as_clevo_arg(), 1);
    assert_eq!(PerformanceProfile::Entertainment.as_clevo_arg(), 2);
    assert_eq!(PerformanceProfile::Performance.as_clevo_arg(), 3);
}

#[test]
fn clevo_speed_round_trip() {
    // Setting then reading back a speed gives the same percentage.
    for (percent, raw) in [(100u8, 255u8), (50, 128), (10, 26)] {
        assert_eq!(fan_speed_raw_clevo(percent), raw);
        assert_eq!(fan_speed_percent_from_raw(raw), percent);
    }
    for percent in 0..=100u8 {
        assert_eq!(fan_speed_percent_from_raw(fan_speed_raw_clevo(percent)), percent);
    }
    // Above 100 % the percentage is clamped.
    assert_eq!(fan_speed_raw_clevo(180), 255);
}

#[test]
fn clevo_speed_argument_packs_bytes() {
    // The other fans keep their current raw speeds.
    let arg = fan_speed_argument_clevo(1, 50, 0x11, 0x99, 0x22);
    assert_eq!(arg, 0x11 | (128 << 8) | (0x22 << 16));
    let arg = fan_speed_argument_clevo(0, 100, 1, 3, 4);
    assert_eq!(arg, 255 | (3 << 8) | (4 << 16));
    let arg = fan_speed_argument_clevo(2, 0, 7, 9, 200);
    assert_eq!(arg, 7 | (9 << 8));
    let arg = fan_speed_argument_clevo(0, 50, 0x80, 0x20, 0x30);
    assert_eq!(arg, 0x302080);
}

#[test]
fn fan_info_values() {
    assert_eq!(fan_speed_raw_from_info(0x1234_56ab), 0xab);
    assert_eq!(fan_temperature_from_info(45).unwrap(), 45);
    assert!(matches!(fan_temperature_from_info(1), Err(IoctlError::DevNotAvailable)));
    assert_eq!(fan_temperature_from_info(0x130).unwrap(), 0x30);
    assert_eq!(fan_temperature_clevo(0x2d_0000).unwrap(), 45);
    assert!(matches!(fan_temperature_clevo(0x01_ffff), Err(IoctlError::DevNotAvailable)));
    assert!(has_fan_info(2).is_ok());
    assert!(matches!(has_fan_info(3), Err(IoctlError::DevNotAvailable)));
}

#[test]
fn switches() {
    assert_eq!(fans_auto_argument(true), 0xF);
    assert_eq!(fans_auto_argument(false), 0x0);
    assert_eq!(webcam_argument(true), 1);
    assert_eq!(webcam_argument(false), 0);
    assert!(webcam_enabled(5));
    assert!(!webcam_enabled(0));
    assert_eq!(fan_speed_raw_uniwill(100), 255);
    assert_eq!(fan_speed_raw_uniwill(50), 128);
    // Above 100 % the percentage is clamped.
    assert_eq!(fan_speed_raw_uniwill(150), 255);
}

#[test]
fn hardware_detection() {
    assert_eq!(detect_hw(Ok(1), Ok(1)), Some(Hw::Clevo));
    assert_eq!(detect_hw(Ok(0), Ok(1)), Some(Hw::Uniwill));
    assert_eq!(detect_hw(Err(IoctlError::Read(19)), Ok(0)), None);
    assert_eq!(
        HwManufacturer::from_hw_checks(&Ok(1), &Ok(0)),
        Some(HwManufacturer::Clevo)
    );
    assert_eq!(
        HwManufacturer::from_hw_checks(&Err(IoctlError::Read(25)), &Ok(1)),
        Some(HwManufacturer::Uniwill)
    );
    assert_eq!(HwManufacturer::from_hw_checks(&Ok(2), &Ok(2)), None);
    assert!(is_clevo(Ok(1)).is_ok());
    assert!(matches!(is_clevo(Ok(0)), Err(IoctlError::DevNotAvailable)));
    assert!(matches!(uniwill::is_uniwill(Err(IoctlError::Read(5))), Err(IoctlError::Read(5))));
}

#[test]
fn fan_info_registers() {
    assert_eq!(fan_info_register(Hw::Clevo, Fan::Fan3).unwrap(), FanInfoRegister::ClevoFanInfo3);
    assert_eq!(
        fan_info_register(Hw::Uniwill, Fan::Fan2).unwrap(),
        FanInfoRegister::UniwillFanTemp2
    );
    assert!(matches!(fan_info_register(Hw::Uniwill, Fan::Fan3), Err(IoctlError::DevNotAvailable)));
}

#[test]
fn uniwill_fans() {
    assert_eq!(uniwill::fan_speed_raw(50), 100);
    for percent in 0..=100u8 {
        let raw = uniwill::fan_speed_raw(percent) as u32;
        assert_eq!(uniwill::fan_speed_percent(raw), percent);
    }
    // Above 100 % the percentage is clamped, both ways.
    assert_eq!(uniwill::fan_speed_raw(150), 200);
    assert_eq!(uniwill::fan_speed_percent(201), 100);
    assert_eq!(uniwill::fan_speed_percent(u32::MAX), 100);
    assert_eq!(uniwill::fan_temperature(Ok(42)).unwrap(), 42);
    assert!(matches!(uniwill::fan_temperature(Ok(0)), Err(IoctlError::DevNotAvailable)));
    assert_eq!(uniwill::number_of_fans(&Ok(40), &Ok(41)), 2);
    assert_eq!(uniwill::number_of_fans(&Ok(40), &Err(IoctlError::DevNotAvailable)), 1);
    assert_eq!(uniwill::number_of_fans(&Err(IoctlError::DevNotAvailable), &Ok(41)), 0);
    assert_eq!(uniwill::fans_min_speed(20), 20);
    assert_eq!(uniwill::fans_min_speed(300), 0);
    assert!(uniwill::fans_off_available(1));
    assert!(!uniwill::fans_off_available(2));
    assert_eq!(uniwill::enable_mode_argument(true), 1);
}

#[test]
fn uniwill_profiles() {
    assert_eq!(uniwill::available_odm_performance_profiles(0).unwrap(), Vec::<String>::new());
    assert_eq!(
        uniwill::available_odm_performance_profiles(2).unwrap(),
        vec!["power_save".to_string(), "enthusiast".to_string()]
    );
    assert_eq!(
        uniwill::available_odm_performance_profiles(3).unwrap(),
        vec!["power_save".to_string(), "enthusiast".to_string(), "overboost".to_string()]
    );
    assert!(matches!(
        uniwill::available_odm_performance_profiles(1),
        Err(IoctlError::DevNotAvailable)
    ));
    for profile in uniwill::available_odm_performance_profiles(3).unwrap() {
        assert!(uniwill::odm_performance_profile_id(&profile).is_ok());
    }
    assert_eq!(uniwill::odm_performance_profile_id("power_save").unwrap(), 1);
    assert_eq!(uniwill::odm_performance_profile_id("enthusiast").unwrap(), 2);
    assert_eq!(uniwill::odm_performance_profile_id("overboost").unwrap(), 3);
    assert!(matches!(uniwill::odm_performance_profile_id("turbo"), Err(IoctlError::InvalidArgs)));
    assert_eq!(uniwill::default_odm_performance_profile(3, Ok(2)).unwrap(), "overboost");
    assert_eq!(
        uniwill::default_odm_performance_profile(2, Err(IoctlError::Read(19))).unwrap(),
        "enthusiast"
    );
    assert!(matches!(
        uniwill::default_odm_performance_profile(0, Ok(1)),
        Err(IoctlError::DevNotAvailable)
    ));
}

#[test]
fn uniwill_power_limits() {
    assert_eq!(uniwill::number_tdps(Ok(10), Ok(20), Ok(30)).unwrap(), 3);
    assert_eq!(uniwill::number_tdps(Ok(10), Ok(20), Ok(-19)).unwrap(), 2);
    assert_eq!(
        uniwill::number_tdps(Ok(0), Err(IoctlError::Read(19)), Err(IoctlError::Read(19))).unwrap(),
        1
    );
    assert!(matches!(
        uniwill::number_tdps(Ok(-1), Ok(-1), Ok(-1)),
        Err(IoctlError::DevNotAvailable)
    ));
    assert_eq!(uniwill::tdp_descriptors(0), Vec::<String>::new());
    assert_eq!(uniwill::tdp_descriptors(2), vec!["pl1".to_string(), "pl2".to_string()]);
    assert_eq!(
        uniwill::tdp_descriptors(5),
        vec!["pl1".to_string(), "pl2".to_string(), "pl4".to_string()]
    );
    assert!(uniwill::tdp_index_valid(2).is_ok());
    assert!(matches!(uniwill::tdp_index_valid(3), Err(IoctlError::DevNotAvailable)));
}

#[test]
fn string_buffer_guard() {
    let buffer = guarded_buffer();
    assert_eq!(buffer.len(), 34);
    let bytes = strip_overflow_guard(buffer).unwrap();
    assert_eq!(bytes, vec![0u8; 30]);
    let mut overwritten = guarded_buffer();
    overwritten[31] = b'x';
    assert_eq!(strip_overflow_guard(overwritten), None);
}
