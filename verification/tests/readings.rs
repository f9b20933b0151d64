use razer_tray::device::{discovered_device, DeviceState, DiscoveredDevice, Driver};
use razer_tray::level::{
    apply_zero_reading_detection, low_battery_step, LOW_BATTERY_THRESHOLD,
};
use razer_tray::sysfs::{attribute_path, battery_from_sysfs, driver_glob_pattern, name_from_sysfs};
use razer_tray::text::{chars_of, parse_u8, trim_chars};
use razer_tray::{apply_debounce, apply_sleep_detection, extract_persistent_id, parse_persisted_selection};

fn device(level: Option<u8>) -> DeviceState {
    let found = discovered_device(Driver::Mouse, "0003:1532:00B8.000A").unwrap();
    DeviceState::new(found, level, false, Some("Razer DeathAdder V3 Pro".to_string()))
}

fn parse(s: &str) -> Option<u8> {
    parse_u8(&chars_of(s))
}

#[test]
fn parse_u8_follows_std_parse() {
    for s in ["0", "7", "42", "255", "+5", "007", "256", "-0", "+", "", " 5", "5 ", "1a", "999"] {
        assert_eq!(parse(s), s.parse::<u8>().ok(), "input {:?}", s);
    }
}

#[test]
fn trim_removes_unicode_white_space() {
    let t: String = trim_chars(&chars_of("\u{a0}\t 42\u{3000}\n")).into_iter().collect();
    assert_eq!(t, "42");
    let t: String = trim_chars(&chars_of(" a b ")).into_iter().collect();
    assert_eq!(t, "a b");
    let t: String = trim_chars(&chars_of(" \n ")).into_iter().collect();
    assert_eq!(t, "");
}

#[test]
fn battery_file_contents() {
    assert_eq!(battery_from_sysfs(Some("73\n"), Some("0\n")), (Some(73), false));
    assert_eq!(battery_from_sysfs(Some("100"), Some("1\n")), (Some(100), true));
    assert_eq!(battery_from_sysfs(Some("garbage"), Some("")), (None, false));
    assert_eq!(battery_from_sysfs(None, None), (None, false));
    assert_eq!(battery_from_sysfs(Some("300"), Some("00")), (None, true));
}

#[test]
fn device_name_file_contents() {
    assert_eq!(name_from_sysfs(Some("Razer Viper Ultimate\n")).as_deref(), Some("Razer Viper Ultimate"));
    assert_eq!(name_from_sysfs(Some("  \n")), None);
    assert_eq!(name_from_sysfs(None), None);
}

#[test]
fn sysfs_paths() {
    assert_eq!(
        attribute_path(Driver::Keyboard, "0003:1532:022D.0001", "charge_level"),
        "/sys/bus/hid/drivers/razerkbd/0003:1532:022D.0001/charge_level"
    );
    assert_eq!(driver_glob_pattern(Driver::Mouse), "/sys/bus/hid/drivers/razermouse/*");
}

#[test]
fn discovered_entries_need_an_id() {
    let d: DiscoveredDevice = discovered_device(Driver::Keyboard, "0003:1532:022D.0001").unwrap();
    assert_eq!(d.sysfs_id, "0003:1532:022D.0001");
    assert_eq!(d.persistent_id, "1532:022D");
    assert_eq!(d.driver, Driver::Keyboard);
    assert!(discovered_device(Driver::Mouse, "module").is_none());
}

#[test]
fn sleep_detection_zero_reading() {
    assert_eq!(apply_sleep_detection(Some(0), Some(50), false), Some(50));
    assert_eq!(apply_sleep_detection(Some(0), Some(4), false), Some(0));
    assert_eq!(apply_sleep_detection(Some(0), Some(5), false), Some(5));
    assert_eq!(apply_zero_reading_detection(Some(0), Some(50), false), Some(50));
    assert_eq!(apply_zero_reading_detection(None, Some(50), false), None);
    assert_eq!(apply_zero_reading_detection(Some(0), Some(50), true), Some(0));
}

#[test]
fn persistent_id_edge_cases() {
    assert_eq!(extract_persistent_id("0003:1532:00B8.000A.x").as_deref(), Some("1532:00B8"));
    assert_eq!(extract_persistent_id(".0003:1532:00B8"), None);
    assert_eq!(extract_persistent_id("::"), None);
    assert_eq!(extract_persistent_id(":a:b").as_deref(), Some("a:b"));
    assert_eq!(parse_persisted_selection("\t1532:00B8\r\n").as_deref(), Some("1532:00B8"));
    assert_eq!(parse_persisted_selection("15 32:00B8").as_deref(), Some("15 32:00B8"));
}

#[test]
fn persisted_selection_round_trip() {
    let id = extract_persistent_id("0003:1532:00B8.000A").unwrap();
    assert_eq!(parse_persisted_selection(&id), Some(id.clone()));
    assert_eq!(parse_persisted_selection(&format!("{}\n", id)), Some(id.clone()));
    assert_eq!(parse_persisted_selection(&format!("  {} \n\n", id)), Some(id));
}

#[test]
fn debounce_noise_never_commits_long_run() {
    let mut last_raw = Some(60);
    let mut shown = Some(60);
    for raw in [Some(59), Some(60), None, Some(59), Some(58), Some(59), None] {
        shown = apply_debounce(raw, shown, last_raw);
        last_raw = raw;
    }
    assert_eq!(shown, Some(60));
}

#[test]
fn debounce_change_takes_two_readings() {
    let first = apply_debounce(Some(40), Some(41), Some(41));
    assert_eq!(first, Some(41));
    assert_eq!(apply_debounce(Some(40), first, Some(40)), Some(40));
}

#[test]
fn low_battery_step_values() {
    assert_eq!(low_battery_step(false, Some(LOW_BATTERY_THRESHOLD), false), (true, true));
    assert_eq!(low_battery_step(true, Some(10), false), (false, true));
    assert_eq!(low_battery_step(true, Some(21), false), (false, false));
    assert_eq!(low_battery_step(false, Some(10), true), (false, false));
    assert_eq!(low_battery_step(true, None, false), (false, true));
}

#[test]
fn observe_alerts_once_per_discharge_cycle() {
    let mut d = device(Some(22));
    let mut alerts = Vec::new();
    for raw in [Some(20), Some(20), Some(19), Some(19), Some(30), Some(30), Some(18), Some(18)] {
        let o = d.observe(raw, false, None);
        if let Some(a) = o.alert {
            alerts.push((a.level, a.device_name));
        }
    }
    assert_eq!(
        alerts,
        vec![
            (20, "Razer DeathAdder V3 Pro".to_string()),
            (18, "Razer DeathAdder V3 Pro".to_string())
        ]
    );
}

#[test]
fn observe_alert_uses_default_name() {
    let found = discovered_device(Driver::Mouse, "0003:1532:00B8.000A").unwrap();
    let mut d = DeviceState::new(found, None, false, None);
    let o = d.observe(Some(10), false, None);
    let a = o.alert.unwrap();
    assert_eq!((a.level, a.device_name.as_str()), (10, "Razer Device"));
    assert!(o.changed);
}

#[test]
fn observe_reports_changes() {
    let mut d = device(Some(50));
    let o = d.observe(Some(50), false, None);
    assert!(!o.changed);
    let o = d.observe(Some(50), true, None);
    assert!(o.changed);
    assert!(d.charging);
    let o = d.observe(Some(49), true, None);
    assert!(!o.changed);
    assert_eq!(d.level, Some(50));
    assert_eq!(d.last_raw_level, Some(49));
    let o = d.observe(Some(49), true, None);
    assert!(o.changed);
    assert_eq!(d.level, Some(49));
}

#[test]
fn observe_sleep_and_name() {
    let found = discovered_device(Driver::Mouse, "0003:1532:00B8.000A").unwrap();
    let mut d = DeviceState::new(found, Some(50), false, None);
    assert!(d.needs_name());
    let o = d.observe(Some(0), false, Some("Mouse".to_string()));
    assert!(o.changed);
    assert_eq!(d.level, Some(50));
    assert_eq!(d.name.as_deref(), Some("Mouse"));
    assert!(!d.needs_name());
    let o = d.observe(Some(50), false, Some("Other".to_string()));
    assert!(!o.changed);
    assert_eq!(d.name.as_deref(), Some("Mouse"));
}
