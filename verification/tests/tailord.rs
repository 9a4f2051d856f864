use tuxedo::tailord::backlight::BacklightProfile;
use tuxedo::tailord::error::FdoError;
use tuxedo::tailord::fancontrol::profile::{FanProfile, FanProfilePoint};
use tuxedo::tailord::performance::{
    initial_performance_profile, PerformanceProfile, PerformanceProfileRuntimeHandle,
};
use tuxedo::tailord::power_supply::{
    battery_supported, is_power_connected, set_power_connected, PowerSupplyState,
};
use tuxedo::tailord::profiles::{
    active_profile_path, contains_name, fan_profile_for, find_led_device,
    references_led_profile, rename_led_profile_references, LedDeviceInfo, LedProfile,
};
use tuxedo::tailord::util::{
    normalize_json_path, profile_name_from_file_name, profile_name_from_link_component,
};

fn invalid_args(res: Result<String, FdoError>) -> String {
    match res {
        Err(FdoError::InvalidArgs(msg)) => msg,
        other => panic!("unexpected result: {:?}", other),
    }
}

#[test]
fn json_paths() {
    assert_eq!(
        normalize_json_path("/etc/tailord/profiles/", "default").unwrap(),
        "/etc/tailord/profiles/default.json"
    );
    assert_eq!(normalize_json_path(" /etc/x// ", "a").unwrap(), "/etc/x/a.json");
    assert_eq!(normalize_json_path("", "a").unwrap(), "a.json");
    assert_eq!(normalize_json_path("profiles", "quiet").unwrap(), "profiles/quiet.json");
    assert_eq!(
        invalid_args(normalize_json_path("/etc", "active_profile")),
        "Can't use name `active_profile`"
    );
    assert_eq!(
        invalid_args(normalize_json_path("/etc", "a/b")),
        "Can't use '/' in profile names: `a/b`"
    );
    assert_eq!(
        invalid_args(normalize_json_path("/etc", "a.b")),
        "Can't use '.' in profile names: `a.b`"
    );
}

#[test]
fn profile_names_round_trip() {
    for name in ["default", "quiet", "Gaming Mode"] {
        let path = normalize_json_path("profiles", name).unwrap();
        let file_name = path.rsplit('/').next().unwrap();
        assert_eq!(profile_name_from_file_name(file_name).unwrap(), name);
        assert_eq!(profile_name_from_link_component(file_name), name);
    }
    assert_eq!(profile_name_from_file_name("notes.txt"), None);
    assert_eq!(profile_name_from_file_name("a.json.json").unwrap(), "a");
    assert_eq!(profile_name_from_file_name("x.jsonl").unwrap(), "xl");
    assert_eq!(profile_name_from_link_component("a.json.json"), "a");
    assert_eq!(profile_name_from_link_component("a.jsonx"), "a.jsonx");
}

#[test]
fn performance_profiles() {
    let p = PerformanceProfile::new("enthusiast");
    assert_eq!(p.to_string(), "enthusiast");
    assert_eq!(initial_performance_profile(Some(p), "overboost".to_string()), "enthusiast");
    assert_eq!(initial_performance_profile(None, "overboost".to_string()), "overboost");
    let mut handle = PerformanceProfileRuntimeHandle::new("power_save".to_string());
    assert_eq!(handle.get_active_performance_profile(), "power_save");
    handle.set_active_performance_profile("overboost");
    assert_eq!(handle.get_active_performance_profile(), "overboost");
}

#[test]
fn backlight_profile() {
    let b = BacklightProfile::new(70);
    assert_eq!(*b, 70);
}

#[test]
fn power_supply_state() {
    let mut state = PowerSupplyState::new();
    assert!(is_power_connected(&state));
    set_power_connected(&mut state, false);
    assert!(!is_power_connected(&state));
    assert_eq!(active_profile_path(true), "/etc/tailord/power_profile.json");
    assert_eq!(active_profile_path(false), "/etc/tailord/battery_profile.json");
    assert!(battery_supported(&vec![true, false]));
    assert!(!battery_supported(&vec![true]));
    assert!(!battery_supported(&vec![false, false, false]));
}

fn led(device: &str, function: &str, profile: &str) -> LedProfile {
    LedProfile {
        device_name: device.to_string(),
        function: function.to_string(),
        profile: profile.to_string(),
    }
}

#[test]
fn led_profile_references() {
    let mut leds = vec![led("kbd", "rgb", "red"), led("lid", "white", "blue"), led("x", "y", "red")];
    assert!(references_led_profile(&leds, "red"));
    assert!(!references_led_profile(&leds, "green"));
    assert!(rename_led_profile_references(&mut leds, "red", "crimson"));
    assert_eq!(leds[0].profile, "crimson");
    assert_eq!(leds[1].profile, "blue");
    assert_eq!(leds[2].profile, "crimson");
    assert_eq!(leds[2].device_name, "x");
    assert!(!rename_led_profile_references(&mut leds, "red", "scarlet"));
}

#[test]
fn device_and_fan_lookup() {
    let infos = vec![
        LedDeviceInfo { device_name: "kbd".to_string(), function: "rgb".to_string() },
        LedDeviceInfo { device_name: "lid".to_string(), function: "white".to_string() },
    ];
    assert_eq!(find_led_device(&infos, "lid", "white"), Some(1));
    assert_eq!(find_led_device(&infos, "lid", "rgb"), None);
    let custom = FanProfile::load_config(vec![FanProfilePoint { temp: 50, fan: 100 }]).unwrap();
    let fans = vec![custom];
    assert_eq!(fan_profile_for(&fans, 0).points(), fans[0].points());
    assert_eq!(fan_profile_for(&fans, 1).points(), FanProfile::default().points());
    let names = vec!["a".to_string(), "b".to_string()];
    assert!(contains_name(&names, "b"));
    assert!(!contains_name(&names, "c"));
}
