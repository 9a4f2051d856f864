use tuxedo::sysfs::backlight::backlight_raw;
use tuxedo::sysfs::charging::{first_threshold, is_battery};
use tuxedo::sysfs::cpu::available_logical_cores;
use tuxedo::sysfs::keyboard::{KeyboardState, NumBool};
use tuxedo::sysfs::led::{brightness_supported, is_rgb_multi_index, led_function, ControllerMode};
use tuxedo::sysfs::parse::{
    is_separated_valid, parse_int_list, parse_separated, parse_string_list, parse_uint_exec,
    split_str,
};

#[test]
fn keyboard_state_round_trip() {
    let states = [
        KeyboardState::Custom,
        KeyboardState::Breathe,
        KeyboardState::Cycle,
        KeyboardState::Dance,
        KeyboardState::Flash,
        KeyboardState::RandomColor,
        KeyboardState::Tempo,
        KeyboardState::Wave,
    ];
    for (i, state) in states.iter().enumerate() {
        let text = state.to_sysfs_string();
        assert_eq!(text, i.to_string());
        assert_eq!(KeyboardState::from_sysfs_value(&text).unwrap(), *state);
        assert_eq!(text.parse::<KeyboardState>().unwrap(), *state);
    }
    assert_eq!(
        KeyboardState::from_sysfs_value("8").unwrap_err(),
        "Expected value in the range 0-7, found 8"
    );
    assert!(KeyboardState::from_sysfs_value(" 1").is_err());
}

#[test]
fn num_bool_values() {
    assert_eq!(NumBool(true).to_sysfs_string(), "1");
    assert_eq!(NumBool(false).to_sysfs_string(), "0");
    assert_eq!(NumBool::from_sysfs_value("1").unwrap(), NumBool(true));
    assert_eq!(NumBool::from_sysfs_value("0").unwrap(), NumBool(false));
    assert_eq!(
        NumBool::from_sysfs_value("2").unwrap_err(),
        "Expected value in the range 0-1, found 2"
    );
}

#[test]
fn unsigned_numbers() {
    assert_eq!(parse_uint_exec("42", u32::MAX), Some(42));
    assert_eq!(parse_uint_exec("+7", u32::MAX), Some(7));
    assert_eq!(parse_uint_exec("4294967295", u32::MAX), Some(u32::MAX));
    assert_eq!(parse_uint_exec("4294967296", u32::MAX), None);
    assert_eq!(parse_uint_exec("256", 255), None);
    assert_eq!(parse_uint_exec("", u32::MAX), None);
    assert_eq!(parse_uint_exec("+", u32::MAX), None);
    assert_eq!(parse_uint_exec("-1", u32::MAX), None);
    assert_eq!(parse_uint_exec("1a", u32::MAX), None);
}

#[test]
fn splitting() {
    assert_eq!(split_str("a b", ' '), vec!["a".to_string(), "b".to_string()]);
    assert_eq!(split_str("", ','), vec![String::new()]);
    assert_eq!(split_str("1,,2,", ','), vec!["1", "", "2", ""]);
}

#[test]
fn int_lists() {
    assert_eq!(parse_int_list("255\n"), Some(vec![255]));
    assert_eq!(parse_int_list("10 20 30"), Some(vec![10, 20, 30]));
    assert_eq!(parse_int_list("10  20"), None);
    assert_eq!(parse_int_list("x"), None);
    assert_eq!(first_threshold(&vec![80, 90]), 80);
    assert_eq!(
        parse_string_list("charge_battery performance\n"),
        vec!["charge_battery".to_string(), "performance".to_string()]
    );
}

#[test]
fn cpu_lists() {
    assert_eq!(parse_separated("0-3,5\n"), vec![0, 1, 2, 3, 5]);
    assert_eq!(parse_separated("7"), vec![7]);
    assert_eq!(parse_separated("4-2,1"), vec![1]);
    assert_eq!(parse_separated("0-255").len(), 256);
    assert!(is_separated_valid("0-3,5\n"));
    assert!(is_separated_valid("7"));
    assert!(!is_separated_valid("0-3-5"));
    assert!(!is_separated_valid("a,1"));
    assert!(!is_separated_valid("0-300"));
    assert!(!is_separated_valid(""));
}

#[test]
fn available_cores() {
    let possible = parse_separated("0-7");
    let present = parse_separated("0-3,6");
    assert_eq!(available_logical_cores(&possible, &present), vec![0, 1, 2, 3, 6]);
    assert_eq!(
        available_logical_cores(&vec![5, 1, 3, 1, 9], &vec![1, 3, 5]),
        vec![1, 1, 3, 5]
    );
    assert_eq!(available_logical_cores(&vec![2, 4], &vec![]), Vec::<u8>::new());
}

#[test]
fn backlight_values() {
    assert_eq!(backlight_raw(50, 255), 128);
    assert_eq!(backlight_raw(100, 200), 200);
    assert_eq!(backlight_raw(0, 200), 0);
    assert_eq!(backlight_raw(200, 120), 120);
    assert_eq!(backlight_raw(33, 10), 3);
}

#[test]
fn led_devices() {
    assert_eq!(led_function("rgb:kbd_backlight").unwrap(), "kbd_backlight");
    assert_eq!(led_function("input3::capslock").unwrap(), "capslock");
    assert_eq!(led_function("plain").unwrap(), "plain");
    assert_eq!(led_function("mmc0::"), None);
    assert!(brightness_supported(2));
    assert!(!brightness_supported(1));
    assert!(is_rgb_multi_index("red green blue\n"));
    assert!(is_rgb_multi_index("Red Green BLUE"));
    assert!(!is_rgb_multi_index("red green"));
    assert_eq!(ControllerMode::for_device(true), ControllerMode::Rgb);
    assert_eq!(ControllerMode::for_device(false), ControllerMode::Monochrome);
}

#[test]
fn battery_type() {
    assert!(is_battery("Battery\n"));
    assert!(!is_battery("Mains\n"));
}
