use mouse_sensitivity::config::{
    config_path, join_path, log_path, socket_path, support_dir, Config, DeviceConfig, DeviceMatch,
};

/// Settings as the tool keeps them for one device.
#[derive(Debug, Clone, Copy, PartialEq)]
struct DeviceSettings {
    disable_acceleration: bool,
    tracking_speed: f64,
    speed: f64,
    dpi: Option<f64>,
}

impl Default for DeviceSettings {
    fn default() -> Self {
        Self { disable_acceleration: true, tracking_speed: 0.6875, speed: 0.5, dpi: None }
    }
}

fn entry(name: &str, vid: i64, pid: i64, settings: DeviceSettings) -> DeviceConfig<DeviceSettings> {
    DeviceConfig {
        matcher: DeviceMatch { vendor_id: Some(vid), product_id: Some(pid) },
        name: name.to_string(),
        settings,
    }
}

#[test]
fn find_by_name_is_case_insensitive_substring() {
    let cfg = Config {
        devices: vec![
            entry("Razer DeathAdder Essential", 1, 1, DeviceSettings::default()),
            entry("MX Master 3S", 2, 2, DeviceSettings::default()),
        ],
        default: None,
    };
    assert_eq!(cfg.find_by_name("razer").len(), 1);
    assert_eq!(cfg.find_by_name("MX MASTER")[0].name, "MX Master 3S");
    assert_eq!(cfg.find_by_name("e").len(), 2);
    assert!(cfg.find_by_name("logitech").is_empty());
}

#[test]
fn upsert_seeds_new_entries_from_seed_not_defaults() {
    let mut cfg: Config<DeviceSettings> = Config::default();
    let seed = DeviceSettings { disable_acceleration: true, tracking_speed: 0.5, speed: 0.069, dpi: None };
    cfg.upsert(Some(2), Some(2), "MX Master 3S", || seed, |mut s| {
        s.dpi = Some(1000.0);
        s
    });
    let s = &cfg.devices[0].settings;
    assert_eq!(s.tracking_speed, 0.5);
    assert_eq!(s.speed, 0.069);
    assert_eq!(s.dpi, Some(1000.0));

    // An explicit config default still wins over the seed.
    let mut cfg = Config { devices: vec![], default: Some(DeviceSettings::default()) };
    cfg.upsert(Some(2), Some(2), "MX Master 3S", || seed, |s| s);
    assert_eq!(cfg.devices[0].settings.tracking_speed, 0.6875);

    // Existing entries are updated in place and renamed.
    cfg.upsert(Some(2), Some(2), "MX Master 3S (renamed)", || seed, |mut s| {
        s.tracking_speed = 0.3;
        s
    });
    assert_eq!(cfg.devices.len(), 1);
    assert_eq!(cfg.devices[0].name, "MX Master 3S (renamed)");
    assert_eq!(cfg.devices[0].settings.tracking_speed, 0.3);
}

#[test]
fn seed_is_only_read_for_new_entries() {
    let mut cfg = Config { devices: vec![entry("A", 1, 1, DeviceSettings::default())], default: None };
    cfg.upsert(Some(1), Some(1), "A", || panic!("the seed must not be read"), |s| s);
    assert_eq!(cfg.devices.len(), 1);
}

#[test]
fn settings_for_prefers_the_entry_then_the_default() {
    let mine = DeviceSettings { tracking_speed: 2.0, ..DeviceSettings::default() };
    let fallback = DeviceSettings { tracking_speed: 9.0, ..DeviceSettings::default() };
    let mut cfg = Config { devices: vec![entry("A", 1, 1, mine)], default: None };
    assert_eq!(cfg.settings_for(Some(1), Some(1)), Some(&mine));
    assert_eq!(cfg.settings_for(Some(1), Some(2)), None);
    assert_eq!(cfg.settings_for(None, Some(1)), None);
    cfg.default = Some(fallback);
    assert_eq!(cfg.settings_for(Some(1), Some(2)), Some(&fallback));
    assert_eq!(cfg.entry_index(Some(1), Some(1)), Some(0));
}

#[test]
fn written_settings_are_read_back_and_others_keep_theirs() {
    let a = DeviceSettings { tracking_speed: 1.0, ..DeviceSettings::default() };
    let b = DeviceSettings { tracking_speed: 2.0, ..DeviceSettings::default() };
    let mut cfg = Config { devices: vec![entry("A", 1, 1, a), entry("B", 2, 2, b)], default: None };
    cfg.upsert(Some(2), Some(2), "B", || a, |mut s| {
        s.speed = 0.25;
        s
    });
    assert_eq!(cfg.settings_for(Some(2), Some(2)).unwrap().speed, 0.25);
    assert_eq!(cfg.settings_for(Some(2), Some(2)).unwrap().tracking_speed, 2.0);
    assert_eq!(cfg.settings_for(Some(1), Some(1)), Some(&a));
    cfg.upsert(Some(3), None, "C", || b, |s| s);
    assert_eq!(cfg.devices.len(), 3);
    assert_eq!(cfg.devices[2].matcher, DeviceMatch { vendor_id: Some(3), product_id: None });
    assert_eq!(cfg.settings_for(Some(3), None), Some(&b));
}

#[test]
fn device_match_compares_both_ids() {
    let m = DeviceMatch { vendor_id: Some(0x1532), product_id: None };
    assert!(m.matches(Some(0x1532), None));
    assert!(!m.matches(Some(0x1532), Some(0x98)));
    assert!(!m.matches(None, None));
}

#[test]
fn paths_join_like_path_join() {
    let dir = support_dir("/Users/me");
    assert_eq!(dir, "/Users/me/Library/Application Support/mouse-sensitivity");
    assert_eq!(support_dir("/Users/me/"), dir);
    assert_eq!(config_path(&dir), format!("{dir}/config.json"));
    assert_eq!(socket_path(&dir), format!("{dir}/daemon.sock"));
    assert_eq!(log_path(&dir), format!("{dir}/daemon.log"));
    assert_eq!(join_path("", "x"), "x");
}

#[test]
fn name_search_ignores_case() {
    let cfg = Config {
        devices: vec![
            entry("Razer DeathAdder Essential", 1, 1, DeviceSettings::default()),
            entry("razer viper", 3, 3, DeviceSettings::default()),
            entry("MX Master 3S", 2, 2, DeviceSettings::default()),
        ],
        default: None,
    };
    let upper: Vec<&str> = cfg.find_by_name("RAZER").iter().map(|d| d.name.as_str()).collect();
    let lower: Vec<&str> = cfg.find_by_name("razer").iter().map(|d| d.name.as_str()).collect();
    assert_eq!(upper, lower);
    assert_eq!(lower, vec!["Razer DeathAdder Essential", "razer viper"]);
}

#[test]
fn empty_name_search_finds_every_entry() {
    let cfg = Config {
        devices: vec![
            entry("Razer DeathAdder Essential", 1, 1, DeviceSettings::default()),
            entry("MX Master 3S", 2, 2, DeviceSettings::default()),
            entry("", 3, 3, DeviceSettings::default()),
        ],
        default: None,
    };
    let names: Vec<&str> = cfg.find_by_name("").iter().map(|d| d.name.as_str()).collect();
    assert_eq!(names, vec!["Razer DeathAdder Essential", "MX Master 3S", ""]);
    let names: Vec<&str> = cfg.find_by_name("s").iter().map(|d| d.name.as_str()).collect();
    assert_eq!(names, vec!["Razer DeathAdder Essential", "MX Master 3S"]);
}
