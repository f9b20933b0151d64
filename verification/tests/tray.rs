use razer_tray::args::{parse_args, ArgsOutcome, RunOptions};
use razer_tray::config::{config_base, ConfigBase};
use razer_tray::device::{discovered_device, sysfs_drivers, DeviceReading, DeviceState, Driver};
use razer_tray::icon::{
    decode_icon, icon_file_name, icon_from_frame, rgba_to_argb, tray_icon_name, DecodedFrame, Icon,
    IconError, IconSet,
};
use razer_tray::label::{low_battery_body, low_battery_summary};
use razer_tray::state::MultiState;

fn dev(sysfs_id: &str, level: Option<u8>, charging: bool, name: Option<&str>) -> DeviceState {
    let found = discovered_device(Driver::Mouse, sysfs_id).unwrap();
    DeviceState::new(found, level, charging, name.map(|n| n.to_string()))
}

fn three() -> Vec<DeviceState> {
    vec![
        dev("0003:1532:00B8.0001", Some(67), false, Some("Mouse A")),
        dev("0003:1532:022D.0002", Some(23), true, Some("Keyboard")),
        dev("0003:1532:00B8.0003", None, false, None),
    ]
}

fn ids(s: &MultiState) -> Vec<String> {
    s.devices.iter().map(|d| d.sysfs_id.clone()).collect()
}

#[test]
fn start_restores_persisted_selection() {
    let s = MultiState::start(three(), &Some("1532:022D".to_string()));
    assert_eq!(s.selected_id.as_deref(), Some("0003:1532:022D.0002"));
    let s = MultiState::start(three(), &Some("1532:00B8".to_string()));
    assert_eq!(s.selected_id.as_deref(), Some("0003:1532:00B8.0001"), "same model: first one");
    let s = MultiState::start(three(), &Some("1532:FFFF".to_string()));
    assert_eq!(s.selected_id.as_deref(), Some("0003:1532:00B8.0001"), "absent: first device");
    let s = MultiState::start(three(), &None);
    assert_eq!(s.selected_id.as_deref(), Some("0003:1532:00B8.0001"));
    let s = MultiState::start(Vec::new(), &Some("1532:00B8".to_string()));
    assert_eq!(s.selected_id, None);
}

#[test]
fn menu_click_selects_and_persists() {
    let mut s = MultiState::start(three(), &None);
    assert_eq!(s.select_device("0003:1532:00B8.0001".to_string()), None, "already selected");
    assert_eq!(s.select_device("gone".to_string()), None, "stale click");
    assert_eq!(s.selected_id.as_deref(), Some("0003:1532:00B8.0001"));
    assert_eq!(s.select_device("0003:1532:022D.0002".to_string()).as_deref(), Some("1532:022D"));
    assert_eq!(s.selected_id.as_deref(), Some("0003:1532:022D.0002"));
    let m = s.menu_model();
    assert_eq!(m.selected, 1);
    assert_eq!(m.clicked_device(2).as_deref(), Some("0003:1532:00B8.0003"));
    assert_eq!(m.clicked_device(3), None);
}

#[test]
fn reconcile_with_scan() {
    let mut s = MultiState::start(three(), &None);
    let scan = vec![
        discovered_device(Driver::Keyboard, "0003:1532:022D.0002").unwrap(),
        discovered_device(Driver::Mouse, "0003:1532:0099.0009").unwrap(),
    ];
    assert!(s.retain_discovered(&scan));
    assert_eq!(ids(&s), vec!["0003:1532:022D.0002".to_string()]);
    assert!(!s.has_device(&"0003:1532:0099.0009".to_string()));
    s.add_device(dev("0003:1532:0099.0009", Some(5), false, None));
    assert!(!s.retain_discovered(&scan));
    assert!(s.ensure_selection(), "selected device gone: fall back to the first");
    assert_eq!(s.selected_id.as_deref(), Some("0003:1532:022D.0002"));
    assert!(!s.ensure_selection());
    assert!(s.retain_discovered(&Vec::new()));
    assert!(s.ensure_selection());
    assert_eq!(s.selected_id, None);
    assert!(s.selection_differs(&Some("x".to_string())));
    assert!(!s.selection_differs(&None));
}

#[test]
fn menu_and_tooltip_texts() {
    let s = MultiState::start(three(), &Some("1532:022D".to_string()));
    let m = s.menu_model();
    let labels: Vec<&str> = m.entries.iter().map(|e| e.label.as_str()).collect();
    assert_eq!(labels, vec!["Mouse A: 67%", "Keyboard: 23% (charging)", "Razer Device: not found"]);
    assert_eq!(s.tool_tip_title(), "Keyboard: 23% (charging)");
    assert_eq!(s.selected_reading(), (Some(23), true));
    let empty = MultiState::start(Vec::new(), &None);
    assert_eq!(empty.tool_tip_title(), "No Razer device");
    assert_eq!(empty.menu_model().entries.len(), 0);
    assert_eq!(empty.selected_reading(), (None, false));
}

#[test]
fn notification_texts() {
    assert_eq!(low_battery_summary("Razer Viper"), "Razer Viper: Low Battery");
    assert_eq!(low_battery_body(7), "Battery level: 7%");
}

fn icon(tag: u8) -> Icon {
    Icon { width: 1, height: 1, data: vec![tag] }
}

fn full_set(missing: bool) -> IconSet {
    let dis: Vec<Icon> = (0..=100).map(|l| icon(l)).collect();
    let chg: Vec<Icon> = (0..=100).map(|l| icon(200 - l)).collect();
    IconSet::new(dis, chg, if missing { Some(icon(255)) } else { None }).unwrap()
}

#[test]
fn icon_set_needs_all_levels() {
    assert!(IconSet::new(vec![icon(0)], vec![icon(0)], None).is_none());
    let set = full_set(true);
    assert_eq!(set.pixmap(Some(42), false).unwrap().data, vec![42]);
    assert_eq!(set.pixmap(Some(42), true).unwrap().data, vec![158]);
    assert_eq!(set.pixmap(Some(250), false).unwrap().data, vec![100]);
    assert_eq!(set.pixmap(None, false).unwrap().data, vec![255]);
    assert!(full_set(false).pixmap(None, true).is_none());
}

#[test]
fn icon_names() {
    assert_eq!(tray_icon_name(Some(90), false, None), "battery-full");
    assert_eq!(tray_icon_name(Some(81), false, None), "battery-full");
    assert_eq!(tray_icon_name(Some(80), false, None), "battery-good");
    assert_eq!(tray_icon_name(Some(50), false, None), "battery-medium");
    assert_eq!(tray_icon_name(Some(30), false, None), "battery-low");
    assert_eq!(tray_icon_name(Some(20), false, None), "battery-caution");
    assert_eq!(tray_icon_name(Some(20), true, None), "battery-full-charging");
    assert_eq!(tray_icon_name(None, false, None), "battery-missing");
    let with_missing = full_set(true);
    let without_missing = full_set(false);
    assert_eq!(tray_icon_name(Some(50), false, Some(&without_missing)), "");
    assert_eq!(tray_icon_name(None, false, Some(&with_missing)), "");
    assert_eq!(tray_icon_name(None, false, Some(&without_missing)), "battery-missing");
}

#[test]
fn icon_file_names() {
    assert_eq!(icon_file_name(0, false), "bat_0.png");
    assert_eq!(icon_file_name(57, true), "bat_57_c.png");
    assert_eq!(icon_file_name(100, false), "bat_100.png");
}

#[test]
fn rgba_reordered_to_argb() {
    assert_eq!(rgba_to_argb(&vec![1, 2, 3, 4, 5, 6, 7, 8, 9]), vec![4, 1, 2, 3, 8, 5, 6, 7]);
    assert_eq!(rgba_to_argb(&vec![1, 2, 3]), Vec::<u8>::new());
}

#[test]
fn frame_must_be_rgba8() {
    let frame = DecodedFrame { width: 1, height: 1, color_type: 2, bit_depth: 8, pixels: vec![1, 2, 3] };
    let e = icon_from_frame(frame).err().unwrap();
    assert_eq!((e.color_type, e.bit_depth), (2, 8));
    let frame = DecodedFrame { width: 3_000_000_000, height: 1, color_type: 6, bit_depth: 8, pixels: vec![10, 20, 30, 40] };
    let i = icon_from_frame(frame).ok().unwrap();
    assert_eq!(i.width, 3_000_000_000u32 as i32);
    assert_eq!(i.data, vec![40, 10, 20, 30]);
}

fn png_bytes(color: png::ColorType, data: &[u8], w: u32, h: u32) -> Vec<u8> {
    let mut out = Vec::new();
    {
        let mut enc = png::Encoder::new(&mut out, w, h);
        enc.set_color(color);
        enc.set_depth(png::BitDepth::Eight);
        let mut writer = enc.write_header().unwrap();
        writer.write_image_data(data).unwrap();
    }
    out
}

#[test]
fn decode_png_icon() {
    let bytes = png_bytes(png::ColorType::Rgba, &[10, 20, 30, 255, 1, 2, 3, 4], 2, 1);
    let i = decode_icon(&bytes).ok().unwrap();
    assert_eq!((i.width, i.height), (2, 1));
    assert_eq!(i.data, vec![255, 10, 20, 30, 4, 1, 2, 3]);
    let bytes = png_bytes(png::ColorType::Rgb, &[10, 20, 30], 1, 1);
    match decode_icon(&bytes) {
        Err(IconError::Unsupported(u)) => assert_eq!((u.color_type, u.bit_depth), (2, 8)),
        _ => panic!("expected an unsupported format"),
    }
    assert!(matches!(decode_icon(b"not a png"), Err(IconError::Decode(_))));
}

#[test]
fn command_line() {
    let a = |v: &[&str]| parse_args(&v.iter().map(|s| s.to_string()).collect());
    assert!(matches!(a(&[]), ArgsOutcome::Run(RunOptions { verbose: false, quit_on_disconnect: false })));
    assert!(matches!(a(&["-v", "--quit-on-disconnect"]), ArgsOutcome::Run(RunOptions { verbose: true, quit_on_disconnect: true })));
    assert!(matches!(a(&["-q", "--help", "--bogus"]), ArgsOutcome::Help));
    assert!(matches!(a(&["-V"]), ArgsOutcome::Version));
    match a(&["-v", "--bogus", "-h"]) {
        ArgsOutcome::Unknown(s) => assert_eq!(s, "--bogus"),
        _ => panic!("expected an unknown argument"),
    }
    assert_eq!(a(&["-h"]).exit_code(), Some(0));
    assert_eq!(a(&["x"]).exit_code(), Some(2));
    assert_eq!(a(&["-v"]).exit_code(), None);
}

#[test]
fn config_base_choice() {
    assert_eq!(config_base(Some(true), true), Some(ConfigBase::XdgConfigHome));
    assert_eq!(config_base(Some(false), true), Some(ConfigBase::HomeDotConfig));
    assert_eq!(config_base(None, false), None);
    assert_eq!(config_base(Some(false), false), None);
}

#[test]
fn driver_names_in_scan_order() {
    let names: Vec<&str> = sysfs_drivers().iter().map(|d| d.sysfs_name()).collect();
    assert_eq!(names, vec!["razermouse", "razerkbd"]);
}

fn reading(raw_level: Option<u8>, charging: bool, name: Option<&str>) -> DeviceReading {
    DeviceReading { raw_level, charging, name: name.map(|n| n.to_string()) }
}

#[test]
fn poll_readings_update_every_device() {
    let mut s = MultiState::start(three(), &None);
    let poll = s.apply_readings(vec![
        reading(Some(67), false, None),
        reading(Some(15), false, None),
        reading(Some(12), false, Some("Mouse B")),
    ]);
    assert!(poll.changed);
    let alerts: Vec<(u8, &str)> = poll.alerts.iter().map(|a| (a.level, a.device_name.as_str())).collect();
    assert_eq!(alerts, vec![(12, "Mouse B")], "keyboard drop held back, new mouse commits at once");
    assert_eq!(s.devices[1].level, Some(23));
    assert_eq!(s.devices[2].name.as_deref(), Some("Mouse B"));
    let poll = s.apply_readings(vec![
        reading(Some(67), false, None),
        reading(Some(15), false, None),
        reading(Some(12), false, None),
    ]);
    let alerts: Vec<(u8, &str)> = poll.alerts.iter().map(|a| (a.level, a.device_name.as_str())).collect();
    assert_eq!(alerts, vec![(15, "Keyboard")], "second matching read commits; alert per device");
    assert!(poll.changed);
    let poll = s.apply_readings(vec![
        reading(Some(67), false, None),
        reading(Some(15), false, None),
        reading(Some(12), false, None),
    ]);
    assert!(!poll.changed);
    assert!(poll.alerts.is_empty());
    assert_eq!(s.selected_id.as_deref(), Some("0003:1532:00B8.0001"));
}
