use mouse_sensitivity::known::{families, lookup, models, pick_family, Basis, Family, VENDOR_APPLE};
use mouse_sensitivity::vendor::{VENDOR_LOGITECH, VENDOR_RAZER};

#[test]
fn product_id_beats_family_rule() {
    let k = lookup(Some(VENDOR_RAZER), Some(0x0098), "Razer DeathAdder Essential").unwrap();
    assert_eq!(k.dpi, 1800);
    assert!(matches!(k.basis, Basis::Model(m) if m.name == "Razer DeathAdder Essential (2021)"));
    assert_eq!(k.describe(), "the factory default of the Razer DeathAdder Essential (2021)");

    let k = lookup(Some(VENDOR_LOGITECH), Some(0xB034), "MX Master 3S").unwrap();
    assert_eq!(k.dpi, 1000);
    assert!(matches!(k.basis, Basis::Model(m) if m.name == "Logitech MX Master 3S"));
}

#[test]
fn family_rules_cover_unlisted_models() {
    // Any Razer mouse, whatever it's called.
    let k = lookup(Some(VENDOR_RAZER), Some(0x7FFF), "Razer Something New").unwrap();
    assert_eq!(k.dpi, 1800);
    assert!(matches!(k.basis, Basis::Family(_)));
    assert_eq!(k.describe(), "Razer's factory default for every mouse");
    // Logitech only by name, case-insensitively.
    let k = lookup(Some(VENDOR_LOGITECH), Some(0x7FFF), "mx master 3s for mac").unwrap();
    assert_eq!(k.dpi, 1000);
    assert!(matches!(k.basis, Basis::Family(f) if f.name_contains == "MX Master"));
    assert_eq!(lookup(Some(VENDOR_LOGITECH), Some(0x7FFF), "G Pro X Superlight"), None);
    // A receiver reports its own id and a generic name.
    assert_eq!(lookup(Some(VENDOR_LOGITECH), Some(0xC548), "USB Receiver"), None);
}

#[test]
fn unknown_vendor_or_missing_ids() {
    assert_eq!(lookup(None, Some(0x0098), "Razer DeathAdder Essential"), None);
    assert_eq!(lookup(Some(0x1234), Some(0x0098), "Razer DeathAdder Essential"), None);
    // No product id still gets the family rule.
    assert_eq!(lookup(Some(VENDOR_RAZER), None, "Razer Viper").unwrap().dpi, 1800);
}

#[test]
fn table_is_well_formed() {
    let table = models();
    for (i, a) in table.iter().enumerate() {
        assert!(a.default_dpi > 0, "{}", a.name);
        assert!(!a.name.is_empty());
        for b in &table[i + 1..] {
            assert!(
                !(a.vendor_id == b.vendor_id && a.product_id == b.product_id),
                "duplicate id {:04X}:{:04X} ({} / {})",
                a.vendor_id,
                a.product_id,
                a.name,
                b.name
            );
        }
    }
    for f in families() {
        assert!(f.default_dpi > 0, "{}", f.description);
        assert!(!f.description.is_empty());
    }
}

#[test]
fn table_sizes_and_apple_entries() {
    assert_eq!(models().len(), 45);
    assert_eq!(families().len(), 5);
    let k = lookup(Some(VENDOR_APPLE), Some(0x0269), "Magic Mouse").unwrap();
    assert_eq!(k.dpi, 1300);
    assert!(matches!(k.basis, Basis::Model(m) if m.name == "Apple Magic Mouse 2"));
}

#[test]
fn most_specific_family_rule_wins_and_is_described() {
    // Apple mouse not in the table: the Magic Mouse rule by name.
    let k = lookup(Some(VENDOR_APPLE), Some(0x7777), "Someone's MAGIC MOUSE").unwrap();
    assert_eq!(k.dpi, 1300);
    assert_eq!(k.describe(), "Apple's specified resolution for the Magic Mouse");
    let k = lookup(Some(VENDOR_LOGITECH), None, "MX Anywhere 3 for Business").unwrap();
    assert!(matches!(k.basis, Basis::Family(f) if f.name_contains == "MX Anywhere"));
    assert_eq!(k.describe(), "Logitech's factory default for the MX Anywhere line");
    // An Apple mouse whose name matches no rule.
    assert_eq!(lookup(Some(VENDOR_APPLE), Some(0x7777), "Trackball"), None);
}

#[test]
fn listed_model_wins_over_any_name() {
    // The law: a listed id decides, whatever the name says.
    for m in models() {
        let k = lookup(Some(m.vendor_id), Some(m.product_id), "no rule matches this").unwrap();
        assert_eq!(k.dpi, m.default_dpi);
        assert_eq!(k.basis, Basis::Model(m));
    }
}

#[test]
fn every_razer_mouse_gets_1800() {
    for name in ["", "RAZER", "Basilisk", "Some Keyboard-Looking Name", "Ünïcode Maus"] {
        let k = lookup(Some(VENDOR_RAZER), None, name).unwrap();
        assert_eq!(k.dpi, 1800);
        assert!(matches!(k.basis, Basis::Family(f) if f.name_contains.is_empty()));
    }
    let k = lookup(Some(VENDOR_RAZER), Some(0x0016), "").unwrap();
    assert_eq!(k.dpi, 1800);
}

#[test]
fn pick_family_compares_lower_cased_patterns() {
    let fs = families();
    let patterns: Vec<Vec<char>> = fs.iter().map(|f| f.name_contains.to_lowercase().chars().collect()).collect();
    let name: Vec<char> = "logitech mx master 3s".chars().collect();
    let f = pick_family(&fs, &patterns, VENDOR_LOGITECH, &name).unwrap();
    assert_eq!(f.name_contains, "MX Master");
    // The patterns are taken as given: upper-case ones do not occur in a lower-cased name.
    let raw: Vec<Vec<char>> = fs.iter().map(|f| f.name_contains.chars().collect()).collect();
    assert_eq!(pick_family(&fs, &raw, VENDOR_LOGITECH, &name), None);
    // An empty pattern matches any name of its vendor, and a longer one wins.
    let custom = vec![
        Family { vendor_id: 7, name_contains: "", description: "any", default_dpi: 400 },
        Family { vendor_id: 7, name_contains: "pro", description: "pro", default_dpi: 800 },
        Family { vendor_id: 7, name_contains: "max", description: "max", default_dpi: 900 },
    ];
    let pats: Vec<Vec<char>> = vec![vec![], vec!['p', 'r', 'o'], vec!['m', 'a', 'x']];
    let lower = |s: &str| -> Vec<char> { s.chars().collect() };
    assert_eq!(pick_family(&custom, &pats, 7, &lower("basic")).unwrap().default_dpi, 400);
    assert_eq!(pick_family(&custom, &pats, 7, &lower("pro 2")).unwrap().default_dpi, 800);
    // Equally long patterns: the last one that applies.
    assert_eq!(pick_family(&custom, &pats, 7, &lower("pro max")).unwrap().default_dpi, 900);
    assert_eq!(pick_family(&custom, &pats, 8, &lower("pro max")), None);
    // A rule with no pattern at its position does not apply.
    assert_eq!(pick_family(&custom, &pats[..1].to_vec(), 7, &lower("pro")).unwrap().default_dpi, 400);
}

#[test]
fn lookup_lower_cases_name_and_patterns() {
    let k = lookup(Some(VENDOR_LOGITECH), None, "LOGITECH MX ANYWHERE 9").unwrap();
    assert!(matches!(k.basis, Basis::Family(f) if f.name_contains == "MX Anywhere"));
    let k = lookup(Some(VENDOR_APPLE), None, "magic mouse 3").unwrap();
    assert_eq!(k.dpi, 1300);
}
