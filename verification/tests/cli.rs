use mouse_sensitivity::cli::{
    acceleration_toggle, dpi_after_query, dpi_for_device, dpi_for_entry, dpi_plan, find_saved, launch_agent_path,
    launch_agent_plist, match_candidates, not_in_table, pick_against, pick_device, query_ids, resolve_connected,
    resolve_daemon_index, AgainstError, DpiFigure, MatchEntry, PickError,
};
use mouse_sensitivity::config::{Config, DeviceConfig, DeviceMatch};
use mouse_sensitivity::hid::PointerDevice;
use mouse_sensitivity::known::lookup;
use mouse_sensitivity::vendor::{SensorDpi, VENDOR_LOGITECH, VENDOR_RAZER};

fn dev(name: &str, vid: Option<i64>, pid: Option<i64>) -> PointerDevice {
    PointerDevice { name: name.to_string(), vendor_id: vid, product_id: pid }
}

fn saved(name: &str, vid: i64, pid: i64, dpi: Option<u32>) -> DeviceConfig<Option<u32>> {
    DeviceConfig {
        matcher: DeviceMatch { vendor_id: Some(vid), product_id: Some(pid) },
        name: name.to_string(),
        settings: dpi,
    }
}

#[test]
fn toggle_from_flags() {
    assert_eq!(acceleration_toggle(true, false), Some(true));
    assert_eq!(acceleration_toggle(false, true), Some(false));
    assert_eq!(acceleration_toggle(false, false), None);
}

#[test]
fn pick_the_given_index_or_the_only_mouse() {
    assert_eq!(pick_device(3, Some(1)), Ok(1));
    assert_eq!(pick_device(3, Some(3)), Err(PickError::OutOfRange { index: 3, count: 3 }));
    assert_eq!(pick_device(1, None), Ok(0));
    assert_eq!(pick_device(2, None), Err(PickError::Ambiguous { count: 2 }));
    assert_eq!(pick_device(0, None), Err(PickError::Ambiguous { count: 0 }));
}

#[test]
fn pick_the_mouse_to_compare_with_the_reference() {
    assert_eq!(pick_against(2, 0, None), Ok(1));
    assert_eq!(pick_against(2, 1, None), Ok(0));
    assert_eq!(pick_against(3, 1, None), Err(AgainstError::Ambiguous(vec![0, 2])));
    assert_eq!(pick_against(3, 1, Some(1)), Err(AgainstError::IsReference(1)));
    assert_eq!(pick_against(3, 1, Some(2)), Ok(2));
    assert_eq!(pick_against(3, 1, Some(7)), Err(AgainstError::OutOfRange { index: 7, count: 3 }));
}

#[test]
fn resolve_connected_by_index_or_name() {
    let devices = vec![dev("Razer Viper", Some(1), Some(1)), dev("MX Master 3S", Some(2), Some(2))];
    assert_eq!(resolve_connected(&devices, "1").unwrap().0, 1);
    assert_eq!(resolve_connected(&devices, "+0").unwrap().0, 0);
    assert_eq!(resolve_connected(&devices, "mx").unwrap().1.name, "MX Master 3S");
    assert_eq!(resolve_connected(&devices, "5").err().unwrap(), "device index 5 out of range (2 connected)");
    assert_eq!(
        resolve_connected(&devices, "logi").err().unwrap(),
        "no connected mouse matches \"logi\"; connected: [0] Razer Viper, [1] MX Master 3S"
    );
    assert_eq!(
        resolve_connected(&devices, "E").err().unwrap(),
        "\"E\" is ambiguous; matches [0] Razer Viper, [1] MX Master 3S"
    );
}

#[test]
fn resolve_daemon_index_by_identity() {
    let listed = vec![(4, dev("A", Some(1), Some(1))), (7, dev("B", Some(1), Some(1)))];
    assert_eq!(resolve_daemon_index(&listed, &dev("B", Some(1), Some(1))), Ok(7));
    assert_eq!(
        resolve_daemon_index(&listed, &dev("B", Some(1), None)),
        Err("the daemon does not see B".to_string())
    );
}

#[test]
fn find_saved_by_name() {
    let cfg = Config {
        devices: vec![saved("Razer DeathAdder", 1, 1, None), saved("MX Master 3S", 2, 2, Some(1000))],
        default: None,
    };
    assert_eq!(find_saved(&cfg, "razer").unwrap().name, "Razer DeathAdder");
    assert_eq!(
        find_saved(&cfg, "zzz").err().unwrap(),
        "no configured mouse matches \"zzz\"; known: Razer DeathAdder, MX Master 3S"
    );
    assert_eq!(
        find_saved(&cfg, "a").err().unwrap(),
        "\"a\" is ambiguous; matches Razer DeathAdder, MX Master 3S"
    );
    let empty: Config<Option<u32>> = Config::default();
    assert_eq!(find_saved(&empty, "x").err().unwrap(), "no configured mouse matches \"x\"; known: (none)");
}

#[test]
fn recorded_dpi_wins_over_the_factory_table() {
    let razer = DeviceMatch { vendor_id: Some(VENDOR_RAZER), product_id: Some(0x0098) };
    let f = dpi_for_entry(Some(1234u32), &razer, "Razer DeathAdder Essential").unwrap();
    assert_eq!(f, DpiFigure::Recorded(1234));
    assert_eq!(f.provenance(), "recorded");
    let f = dpi_for_entry(None::<u32>, &razer, "Razer DeathAdder Essential").unwrap();
    assert!(f.is_factory());
    assert_eq!(f.provenance(), "factory default");
    let unknown = DeviceMatch { vendor_id: Some(0x1234), product_id: Some(1) };
    assert_eq!(dpi_for_entry(None::<u32>, &unknown, "Mouse"), None);

    let cfg = Config {
        devices: vec![saved("MX Master 3S", VENDOR_LOGITECH, 0xB034, Some(800))],
        default: None,
    };
    let d = dev("MX Master 3S", Some(VENDOR_LOGITECH), Some(0xB034));
    assert_eq!(dpi_for_device(&cfg, &d, |s| s), Some(DpiFigure::Recorded(800)));
    let d = dev("Razer Viper", Some(VENDOR_RAZER), Some(0x0078));
    assert!(matches!(dpi_for_device(&cfg, &d, |s| s), Some(DpiFigure::Factory(k)) if k.dpi == 1800));
}

#[test]
fn messages_and_files() {
    assert_eq!(
        not_in_table("Mouse"),
        "Mouse is not in the built-in table of factory DPI values (`dpi --list-known`); measure it with `calibrate` or record it by hand with `set --dpi <value>`"
    );
    assert_eq!(query_ids(&dev("M", Some(1), Some(2))), Ok((1, 2)));
    assert_eq!(query_ids(&dev("M", None, Some(2))), Err("M reports no vendor/product id".to_string()));
    assert_eq!(
        launch_agent_path("/Users/me"),
        "/Users/me/Library/LaunchAgents/com.wcharczuk.mouse-sensitivity.plist"
    );
    let plist = launch_agent_plist("/bin/ms", "/tmp/log");
    assert!(plist.starts_with("<?xml version=\"1.0\" encoding=\"UTF-8\"?>\n"));
    assert!(plist.contains("    <string>com.wcharczuk.mouse-sensitivity</string>\n"));
    assert!(plist.contains("        <string>/bin/ms</string>\n        <string>daemon</string>\n"));
    assert_eq!(plist.matches("<string>/tmp/log</string>").count(), 2);
    assert!(plist.ends_with("</dict>\n</plist>\n"));
}

const NOT_LISTED: &str = " is not in the built-in table of factory DPI values (`dpi --list-known`); measure it with `calibrate` or record it by hand with `set --dpi <value>`";

#[test]
fn dpi_known_uses_the_table_or_fails() {
    let k = lookup(Some(VENDOR_RAZER), None, "Razer Anything").unwrap();
    assert_eq!(dpi_plan(true, Some(k), "Razer Anything"), Ok(Some((1800, Some(k)))));
    assert_eq!(dpi_plan(true, None, "Mystery Mouse"), Err(format!("Mystery Mouse{NOT_LISTED}")));
    assert_eq!(dpi_plan(false, Some(k), "Razer Anything"), Ok(None));
    assert_eq!(dpi_plan(false, None, "Mystery Mouse"), Ok(None));
}

#[test]
fn dpi_prefers_the_sensor_and_falls_back_to_the_table() {
    let k = lookup(Some(VENDOR_LOGITECH), None, "MX Master 9").unwrap();
    let reading = SensorDpi { dpi_x: 1600, dpi_y: 800, default_dpi: Some(1000), source: "HID++ 2.0" };
    assert_eq!(dpi_after_query(Ok(reading.clone()), Some(k), "MX Master 9"), Ok((1600, None)));
    assert_eq!(dpi_after_query(Ok(reading), None, "MX Master 9"), Ok((1600, None)));
    assert_eq!(dpi_after_query(Err("no answer".to_string()), Some(k), "MX Master 9"), Ok((1000, Some(k))));
    assert_eq!(
        dpi_after_query(Err("no answer".to_string()), None, "Mystery Mouse"),
        Err(format!("no answer\n       Mystery Mouse{NOT_LISTED}"))
    );
}

#[test]
fn match_hint_lists_other_linear_mice_with_a_figure() {
    let entry = |name: &str, vid: i64, pid: i64, linear: bool, recorded: Option<u32>| MatchEntry {
        matcher: DeviceMatch { vendor_id: Some(vid), product_id: Some(pid) },
        name: name.to_string(),
        linear,
        recorded,
    };
    let entries = vec![
        entry("Razer Viper", VENDOR_RAZER, 0x78, true, None),
        entry("MX Master 3S", VENDOR_LOGITECH, 0xB034, true, Some(1600)),
        entry("Mystery Mouse", 0x1234, 1, true, None),
        entry("Razer Basilisk", VENDOR_RAZER, 0x99, false, Some(2000)),
        entry("Trusty", 0x1234, 2, true, Some(800)),
    ];
    let this = dev("MX Master 3S", Some(VENDOR_LOGITECH), Some(0xB034));
    let found = match_candidates(&entries, &this);
    assert_eq!(found.len(), 2);
    assert_eq!(found[0].0, 0);
    assert!(matches!(found[0].1, DpiFigure::Factory(k) if k.dpi == 1800));
    assert_eq!(found[1], (4, DpiFigure::Recorded(800)));
    let other = dev("Something", Some(9), Some(9));
    let idx: Vec<usize> = match_candidates(&entries, &other).iter().map(|c| c.0).collect();
    assert_eq!(idx, vec![0, 1, 4]);
}
