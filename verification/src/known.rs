//! Factory DPI values for mice the tool can identify by vendor and product id.
//!
//! `calibrate` measures a mouse's effective DPI and `dpi` asks the mouse for
//! it, but both need the mouse in hand, and `dpi` needs the Input Monitoring
//! permission. Every mouse ships at a documented DPI, though, and most people
//! never change it, so the factory figure is a usable stand-in: `match` only
//! cares about the ratio between two mice, and a factory default is exact
//! whenever the DPI stage was left alone.
//!
//! Entries are keyed by the (vendor id, product id) pair macOS reports. A
//! Logitech mouse behind a Unifying or Bolt receiver reports the receiver's
//! ids and a generic name, so only direct Bluetooth and USB connections are
//! listed. Family rules catch models missing from the table: Razer ships
//! every mouse with onboard memory at 1800 DPI (Synapse's default stage) and
//! Logitech's MX line at 1000.

use vstd::prelude::*;
use vstd::string::*;

use crate::text::{chars_of, contains_chars, contains_text, lemma_empty_pattern_occurs, lowercase, to_lowercase};
use crate::vendor::{VENDOR_LOGITECH, VENDOR_RAZER};

verus! {

pub const VENDOR_APPLE: i64 = 0x05AC;

/// One model, identified by its product id.
#[derive(Debug, Clone, Copy, PartialEq, Eq)]
pub struct Model {
    pub vendor_id: i64,
    pub product_id: i64,
    pub name: &'static str,
    pub default_dpi: u32,
}

/// A rule for a whole family: any mouse from `vendor_id` whose product name
/// contains `name_contains` (case-insensitively; empty matches everything).
#[derive(Debug, Clone, Copy, PartialEq, Eq)]
pub struct Family {
    pub vendor_id: i64,
    pub name_contains: &'static str,
    /// Noun phrase for messages, e.g. "Razer's factory default for every mouse".
    pub description: &'static str,
    pub default_dpi: u32,
}

/// What a lookup matched on.
#[derive(Debug, Clone, Copy, PartialEq, Eq)]
pub enum Basis {
    Model(Model),
    Family(Family),
}

/// A factory DPI figure and the table entry it came from.
#[derive(Debug, Clone, Copy, PartialEq, Eq)]
pub struct KnownDpi {
    pub dpi: u32,
    pub basis: Basis,
}

/// The table of models, in the order it is searched.
pub open spec fn model_table() -> Seq<Model> {
    seq![
        // Razer: 1800 DPI out of the box across the range. Product ids as in openrazer.
        Model { vendor_id: VENDOR_RAZER, product_id: 0x0016, name: "Razer DeathAdder 3.5G", default_dpi: 1800 },
        Model { vendor_id: VENDOR_RAZER, product_id: 0x0037, name: "Razer DeathAdder 2013", default_dpi: 1800 },
        Model { vendor_id: VENDOR_RAZER, product_id: 0x0038, name: "Razer DeathAdder 1800", default_dpi: 1800 },
        Model { vendor_id: VENDOR_RAZER, product_id: 0x0043, name: "Razer DeathAdder Chroma", default_dpi: 1800 },
        Model { vendor_id: VENDOR_RAZER, product_id: 0x005C, name: "Razer DeathAdder Elite", default_dpi: 1800 },
        Model { vendor_id: VENDOR_RAZER, product_id: 0x006E, name: "Razer DeathAdder Essential", default_dpi: 1800 },
        Model { vendor_id: VENDOR_RAZER, product_id: 0x0071, name: "Razer DeathAdder Essential (White Edition)", default_dpi: 1800 },
        Model { vendor_id: VENDOR_RAZER, product_id: 0x0098, name: "Razer DeathAdder Essential (2021)", default_dpi: 1800 },
        Model { vendor_id: VENDOR_RAZER, product_id: 0x0084, name: "Razer DeathAdder V2", default_dpi: 1800 },
        Model { vendor_id: VENDOR_RAZER, product_id: 0x007C, name: "Razer DeathAdder V2 Pro (wired)", default_dpi: 1800 },
        Model { vendor_id: VENDOR_RAZER, product_id: 0x007D, name: "Razer DeathAdder V2 Pro (wireless)", default_dpi: 1800 },
        Model { vendor_id: VENDOR_RAZER, product_id: 0x008C, name: "Razer DeathAdder V2 Mini", default_dpi: 1800 },
        Model { vendor_id: VENDOR_RAZER, product_id: 0x009C, name: "Razer DeathAdder V2 X HyperSpeed", default_dpi: 1800 },
        Model { vendor_id: VENDOR_RAZER, product_id: 0x00B2, name: "Razer DeathAdder V3", default_dpi: 1800 },
        Model { vendor_id: VENDOR_RAZER, product_id: 0x00B6, name: "Razer DeathAdder V3 Pro (wired)", default_dpi: 1800 },
        Model { vendor_id: VENDOR_RAZER, product_id: 0x00B7, name: "Razer DeathAdder V3 Pro (wireless)", default_dpi: 1800 },
        Model { vendor_id: VENDOR_RAZER, product_id: 0x0078, name: "Razer Viper", default_dpi: 1800 },
        Model { vendor_id: VENDOR_RAZER, product_id: 0x008A, name: "Razer Viper Mini", default_dpi: 1800 },
        Model { vendor_id: VENDOR_RAZER, product_id: 0x007A, name: "Razer Viper Ultimate (wired)", default_dpi: 1800 },
        Model { vendor_id: VENDOR_RAZER, product_id: 0x007B, name: "Razer Viper Ultimate (wireless)", default_dpi: 1800 },
        Model { vendor_id: VENDOR_RAZER, product_id: 0x0091, name: "Razer Viper 8KHz", default_dpi: 1800 },
        Model { vendor_id: VENDOR_RAZER, product_id: 0x00A5, name: "Razer Viper V2 Pro (wired)", default_dpi: 1800 },
        Model { vendor_id: VENDOR_RAZER, product_id: 0x00A6, name: "Razer Viper V2 Pro (wireless)", default_dpi: 1800 },
        Model { vendor_id: VENDOR_RAZER, product_id: 0x0064, name: "Razer Basilisk", default_dpi: 1800 },
        Model { vendor_id: VENDOR_RAZER, product_id: 0x0083, name: "Razer Basilisk X HyperSpeed", default_dpi: 1800 },
        Model { vendor_id: VENDOR_RAZER, product_id: 0x0085, name: "Razer Basilisk V2", default_dpi: 1800 },
        Model { vendor_id: VENDOR_RAZER, product_id: 0x0099, name: "Razer Basilisk V3", default_dpi: 1800 },
        Model { vendor_id: VENDOR_RAZER, product_id: 0x0067, name: "Razer Naga Trinity", default_dpi: 1800 },
        Model { vendor_id: VENDOR_RAZER, product_id: 0x008F, name: "Razer Naga Pro (wired)", default_dpi: 1800 },
        Model { vendor_id: VENDOR_RAZER, product_id: 0x0090, name: "Razer Naga Pro (wireless)", default_dpi: 1800 },
        Model { vendor_id: VENDOR_RAZER, product_id: 0x0096, name: "Razer Naga X", default_dpi: 1800 },
        Model { vendor_id: VENDOR_RAZER, product_id: 0x0094, name: "Razer Orochi V2 (receiver)", default_dpi: 1800 },
        Model { vendor_id: VENDOR_RAZER, product_id: 0x0095, name: "Razer Orochi V2 (Bluetooth)", default_dpi: 1800 },
        // Logitech MX line: 1000 DPI out of the box. Bluetooth product ids.
        Model { vendor_id: VENDOR_LOGITECH, product_id: 0xB012, name: "Logitech MX Master", default_dpi: 1000 },
        Model { vendor_id: VENDOR_LOGITECH, product_id: 0xB019, name: "Logitech MX Master 2S", default_dpi: 1000 },
        Model { vendor_id: VENDOR_LOGITECH, product_id: 0xB023, name: "Logitech MX Master 3", default_dpi: 1000 },
        Model { vendor_id: VENDOR_LOGITECH, product_id: 0xB034, name: "Logitech MX Master 3S", default_dpi: 1000 },
        Model { vendor_id: VENDOR_LOGITECH, product_id: 0xB013, name: "Logitech MX Anywhere 2", default_dpi: 1000 },
        Model { vendor_id: VENDOR_LOGITECH, product_id: 0xB01A, name: "Logitech MX Anywhere 2S", default_dpi: 1000 },
        Model { vendor_id: VENDOR_LOGITECH, product_id: 0xB025, name: "Logitech MX Anywhere 3", default_dpi: 1000 },
        Model { vendor_id: VENDOR_LOGITECH, product_id: 0xB037, name: "Logitech MX Anywhere 3S", default_dpi: 1000 },
        Model { vendor_id: VENDOR_LOGITECH, product_id: 0xB020, name: "Logitech MX Vertical", default_dpi: 1000 },
        Model { vendor_id: VENDOR_LOGITECH, product_id: 0xB015, name: "Logitech M720 Triathlon", default_dpi: 1000 },
        // Apple: the Magic Mouse's laser sensor is specified at 1300 DPI.
        Model { vendor_id: VENDOR_APPLE, product_id: 0x030D, name: "Apple Magic Mouse", default_dpi: 1300 },
        Model { vendor_id: VENDOR_APPLE, product_id: 0x0269, name: "Apple Magic Mouse 2", default_dpi: 1300 },
    ]
}

/// The family rules, in the order they are considered.
pub open spec fn family_table() -> Seq<Family> {
    seq![
        Family { vendor_id: VENDOR_RAZER, name_contains: "", description: "Razer's factory default for every mouse", default_dpi: 1800 },
        Family { vendor_id: VENDOR_LOGITECH, name_contains: "MX Master", description: "Logitech's factory default for the MX Master line", default_dpi: 1000 },
        Family { vendor_id: VENDOR_LOGITECH, name_contains: "MX Anywhere", description: "Logitech's factory default for the MX Anywhere line", default_dpi: 1000 },
        Family { vendor_id: VENDOR_LOGITECH, name_contains: "MX Vertical", description: "Logitech's factory default for the MX Vertical", default_dpi: 1000 },
        Family { vendor_id: VENDOR_APPLE, name_contains: "Magic Mouse", description: "Apple's specified resolution for the Magic Mouse", default_dpi: 1300 },
    ]
}

fn model(vendor_id: i64, product_id: i64, name: &'static str, default_dpi: u32) -> (m: Model)
    ensures
        m == (Model { vendor_id, product_id, name, default_dpi }),
{
    Model { vendor_id, product_id, name, default_dpi }
}

/// The built-in table of models.
pub fn models() -> (v: Vec<Model>)
    ensures
        v@ == model_table(),
{
    let mut v: Vec<Model> = Vec::new();
    // Razer: 1800 DPI out of the box across the range. Product ids as in openrazer.
    v.push(model(VENDOR_RAZER, 0x0016, "Razer DeathAdder 3.5G", 1800));
    v.push(model(VENDOR_RAZER, 0x0037, "Razer DeathAdder 2013", 1800));
    v.push(model(VENDOR_RAZER, 0x0038, "Razer DeathAdder 1800", 1800));
    v.push(model(VENDOR_RAZER, 0x0043, "Razer DeathAdder Chroma", 1800));
    v.push(model(VENDOR_RAZER, 0x005C, "Razer DeathAdder Elite", 1800));
    v.push(model(VENDOR_RAZER, 0x006E, "Razer DeathAdder Essential", 1800));
    v.push(model(VENDOR_RAZER, 0x0071, "Razer DeathAdder Essential (White Edition)", 1800));
    v.push(model(VENDOR_RAZER, 0x0098, "Razer DeathAdder Essential (2021)", 1800));
    v.push(model(VENDOR_RAZER, 0x0084, "Razer DeathAdder V2", 1800));
    v.push(model(VENDOR_RAZER, 0x007C, "Razer DeathAdder V2 Pro (wired)", 1800));
    v.push(model(VENDOR_RAZER, 0x007D, "Razer DeathAdder V2 Pro (wireless)", 1800));
    v.push(model(VENDOR_RAZER, 0x008C, "Razer DeathAdder V2 Mini", 1800));
    v.push(model(VENDOR_RAZER, 0x009C, "Razer DeathAdder V2 X HyperSpeed", 1800));
    v.push(model(VENDOR_RAZER, 0x00B2, "Razer DeathAdder V3", 1800));
    v.push(model(VENDOR_RAZER, 0x00B6, "Razer DeathAdder V3 Pro (wired)", 1800));
    v.push(model(VENDOR_RAZER, 0x00B7, "Razer DeathAdder V3 Pro (wireless)", 1800));
    v.push(model(VENDOR_RAZER, 0x0078, "Razer Viper", 1800));
    v.push(model(VENDOR_RAZER, 0x008A, "Razer Viper Mini", 1800));
    v.push(model(VENDOR_RAZER, 0x007A, "Razer Viper Ultimate (wired)", 1800));
    v.push(model(VENDOR_RAZER, 0x007B, "Razer Viper Ultimate (wireless)", 1800));
    v.push(model(VENDOR_RAZER, 0x0091, "Razer Viper 8KHz", 1800));
    v.push(model(VENDOR_RAZER, 0x00A5, "Razer Viper V2 Pro (wired)", 1800));
    v.push(model(VENDOR_RAZER, 0x00A6, "Razer Viper V2 Pro (wireless)", 1800));
    v.push(model(VENDOR_RAZER, 0x0064, "Razer Basilisk", 1800));
    v.push(model(VENDOR_RAZER, 0x0083, "Razer Basilisk X HyperSpeed", 1800));
    v.push(model(VENDOR_RAZER, 0x0085, "Razer Basilisk V2", 1800));
    v.push(model(VENDOR_RAZER, 0x0099, "Razer Basilisk V3", 1800));
    v.push(model(VENDOR_RAZER, 0x0067, "Razer Naga Trinity", 1800));
    v.push(model(VENDOR_RAZER, 0x008F, "Razer Naga Pro (wired)", 1800));
    v.push(model(VENDOR_RAZER, 0x0090, "Razer Naga Pro (wireless)", 1800));
    v.push(model(VENDOR_RAZER, 0x0096, "Razer Naga X", 1800));
    v.push(model(VENDOR_RAZER, 0x0094, "Razer Orochi V2 (receiver)", 1800));
    v.push(model(VENDOR_RAZER, 0x0095, "Razer Orochi V2 (Bluetooth)", 1800));
    // Logitech MX line: 1000 DPI out of the box. Bluetooth product ids.
    v.push(model(VENDOR_LOGITECH, 0xB012, "Logitech MX Master", 1000));
    v.push(model(VENDOR_LOGITECH, 0xB019, "Logitech MX Master 2S", 1000));
    v.push(model(VENDOR_LOGITECH, 0xB023, "Logitech MX Master 3", 1000));
    v.push(model(VENDOR_LOGITECH, 0xB034, "Logitech MX Master 3S", 1000));
    v.push(model(VENDOR_LOGITECH, 0xB013, "Logitech MX Anywhere 2", 1000));
    v.push(model(VENDOR_LOGITECH, 0xB01A, "Logitech MX Anywhere 2S", 1000));
    v.push(model(VENDOR_LOGITECH, 0xB025, "Logitech MX Anywhere 3", 1000));
    v.push(model(VENDOR_LOGITECH, 0xB037, "Logitech MX Anywhere 3S", 1000));
    v.push(model(VENDOR_LOGITECH, 0xB020, "Logitech MX Vertical", 1000));
    v.push(model(VENDOR_LOGITECH, 0xB015, "Logitech M720 Triathlon", 1000));
    // Apple: the Magic Mouse's laser sensor is specified at 1300 DPI.
    v.push(model(VENDOR_APPLE, 0x030D, "Apple Magic Mouse", 1300));
    v.push(model(VENDOR_APPLE, 0x0269, "Apple Magic Mouse 2", 1300));
    assert(v@ =~= model_table());
    v
}

/// The built-in family rules.
pub fn families() -> (v: Vec<Family>)
    ensures
        v@ == family_table(),
{
    let mut v: Vec<Family> = Vec::new();
    v.push(Family { vendor_id: VENDOR_RAZER, name_contains: "", description: "Razer's factory default for every mouse", default_dpi: 1800 });
    v.push(Family { vendor_id: VENDOR_LOGITECH, name_contains: "MX Master", description: "Logitech's factory default for the MX Master line", default_dpi: 1000 });
    v.push(Family { vendor_id: VENDOR_LOGITECH, name_contains: "MX Anywhere", description: "Logitech's factory default for the MX Anywhere line", default_dpi: 1000 });
    v.push(Family { vendor_id: VENDOR_LOGITECH, name_contains: "MX Vertical", description: "Logitech's factory default for the MX Vertical", default_dpi: 1000 });
    v.push(Family { vendor_id: VENDOR_APPLE, name_contains: "Magic Mouse", description: "Apple's specified resolution for the Magic Mouse", default_dpi: 1300 });
    assert(v@ =~= family_table());
    v
}

/// The model carries this vendor and product id.
pub open spec fn model_matches(m: Model, vendor_id: i64, product_id: i64) -> bool {
    m.vendor_id == vendor_id && m.product_id == product_id
}

/// The first model in `ms` with this vendor and product id.
pub open spec fn first_model(ms: Seq<Model>, vendor_id: i64, product_id: i64) -> Option<Model>
    decreases ms.len(),
{
    if ms.len() == 0 {
        None
    } else if model_matches(ms[0], vendor_id, product_id) {
        Some(ms[0])
    } else {
        first_model(ms.drop_first(), vendor_id, product_id)
    }
}

/// The rule applies to a mouse of `vendor_id` whose lower-cased product
/// name is `lower_name`, its own pattern lower-cased being `pattern`.
pub open spec fn rule_applies(f: Family, pattern: Seq<char>, vendor_id: i64, lower_name: Seq<char>) -> bool {
    f.vendor_id == vendor_id && contains_text(lower_name, pattern)
}

/// How specific a rule is: the length of its name pattern, as `str::len`
/// counts it.
pub open spec fn specificity(f: Family) -> usize {
    f.name_contains.spec_bytes().len() as usize
}

/// Of the rules in `fs` that apply, the one with the longest pattern; among
/// equally long ones the last, as `Iterator::max_by_key` picks. The rule at
/// position `i` is tested with `patterns[i]` as its lower-cased pattern; a
/// rule with no pattern at its position does not apply.
pub open spec fn best_rule(fs: Seq<Family>, patterns: Seq<Seq<char>>, vendor_id: i64, lower_name: Seq<char>) -> Option<Family>
    decreases fs.len(),
{
    if fs.len() == 0 {
        None
    } else {
        let prev = best_rule(fs.drop_last(), patterns, vendor_id, lower_name);
        let f = fs.last();
        let i = fs.len() - 1;
        if i < patterns.len() && rule_applies(f, patterns[i], vendor_id, lower_name) && (prev is None
            || specificity(prev->0) <= specificity(f)) {
            Some(f)
        } else {
            prev
        }
    }
}

/// Each rule's pattern, lower-cased.
pub open spec fn lowered_patterns(fs: Seq<Family>) -> Seq<Seq<char>> {
    fs.map_values(|f: Family| lowercase(f.name_contains@))
}

/// The most specific rule of `fs` for a mouse of `vendor_id` whose
/// lower-cased product name is `lower_name`, patterns compared
/// case-insensitively.
pub open spec fn best_family(fs: Seq<Family>, vendor_id: i64, lower_name: Seq<char>) -> Option<Family> {
    best_rule(fs, lowered_patterns(fs), vendor_id, lower_name)
}

/// The factory figure for a mouse: its model's if the table lists its
/// vendor and product id, else the most specific family rule's.
pub open spec fn factory_dpi(vendor_id: Option<i64>, product_id: Option<i64>, name: Seq<char>) -> Option<KnownDpi> {
    match vendor_id {
        None => None,
        Some(v) => {
            let by_model = match product_id {
                Some(p) => first_model(model_table(), v, p),
                None => None,
            };
            match by_model {
                Some(m) => Some(KnownDpi { dpi: m.default_dpi, basis: Basis::Model(m) }),
                None => match best_family(family_table(), v, lowercase(name)) {
                    Some(f) => Some(KnownDpi { dpi: f.default_dpi, basis: Basis::Family(f) }),
                    None => None,
                },
            }
        },
    }
}

/// The text `describe` gives for a figure.
pub open spec fn description_of(k: KnownDpi) -> Seq<char> {
    match k.basis {
        Basis::Model(m) => "the factory default of the "@ + m.name@,
        Basis::Family(f) => f.description@,
    }
}

impl KnownDpi {
    /// Where the figure comes from, as a noun phrase: "the factory default of
    /// the Razer DeathAdder Essential (2021)" or "Razer's factory default for
    /// every mouse".
    pub fn describe(&self) -> (s: String)
        ensures
            s@ == description_of(*self),
    {
        match self.basis {
            Basis::Model(m) => {
                let mut s = String::from_str("the factory default of the ");
                s.append(m.name);
                s
            },
            Basis::Family(f) => String::from_str(f.description),
        }
    }
}

fn find_model(ms: &Vec<Model>, vendor_id: i64, product_id: i64) -> (r: Option<Model>)
    ensures
        r == first_model(ms@, vendor_id, product_id),
{
    let mut i: usize = 0;
    assert(ms@.skip(0) =~= ms@);
    while i < ms.len()
        invariant
            i <= ms.len(),
            first_model(ms@, vendor_id, product_id) == first_model(ms@.skip(i as int), vendor_id, product_id),
        decreases ms.len() - i,
    {
        let m = ms[i];
        assert(ms@.skip(i as int)[0] == m);
        assert(ms@.skip(i as int).drop_first() =~= ms@.skip(i + 1));
        if m.vendor_id == vendor_id && m.product_id == product_id {
            return Some(m);
        }
        i = i + 1;
    }
    None
}

/// The family rule for a mouse of `vendor_id` whose lower-cased product
/// name is `lower_name`, given each rule's pattern lower-cased at the same
/// position of `patterns`: the applicable rule with the longest pattern, the
/// last of equally long ones.
pub fn pick_family(fs: &Vec<Family>, patterns: &Vec<Vec<char>>, vendor_id: i64, lower_name: &Vec<char>) -> (r: Option<Family>)
    ensures
        r == best_rule(fs@, patterns@.map_values(|p: Vec<char>| p@), vendor_id, lower_name@),
{
    let ghost pats = patterns@.map_values(|p: Vec<char>| p@);
    let mut best: Option<Family> = None;
    let mut i: usize = 0;
    while i < fs.len()
        invariant
            i <= fs.len(),
            pats == patterns@.map_values(|p: Vec<char>| p@),
            best == best_rule(fs@.take(i as int), pats, vendor_id, lower_name@),
        decreases fs.len() - i,
    {
        let f = fs[i];
        assert(fs@.take(i + 1).drop_last() =~= fs@.take(i as int));
        assert(fs@.take(i + 1).last() == f);
        if f.vendor_id == vendor_id && i < patterns.len() {
            assert(pats[i as int] == patterns@[i as int]@);
            if contains_chars(lower_name, &patterns[i]) {
                let better = match best {
                    None => true,
                    Some(b) => b.name_contains.len() <= f.name_contains.len(),
                };
                if better {
                    best = Some(f);
                }
            }
        }
        i = i + 1;
    }
    assert(fs@.take(fs.len() as int) =~= fs@);
    best
}

/// Each rule's pattern, lower-cased, in order.
fn lowered_pattern_list(fs: &Vec<Family>) -> (v: Vec<Vec<char>>)
    ensures
        v@.map_values(|p: Vec<char>| p@) == lowered_patterns(fs@),
        forall|i: int| 0 <= i < fs@.len() && fs@[i].name_contains@.len() == 0 ==> v@[i]@.len() == 0,
{
    let mut v: Vec<Vec<char>> = Vec::new();
    let mut i: usize = 0;
    while i < fs.len()
        invariant
            i <= fs.len(),
            v@.len() == i,
            forall|j: int| 0 <= j < i ==> (#[trigger] v@[j])@ == lowercase(fs@[j].name_contains@),
            forall|j: int| 0 <= j < i && fs@[j].name_contains@.len() == 0 ==> v@[j]@.len() == 0,
        decreases fs.len() - i,
    {
        let p = to_lowercase(fs[i].name_contains);
        v.push(chars_of(p.as_str()));
        i = i + 1;
    }
    assert(v@.map_values(|p: Vec<char>| p@) =~= lowered_patterns(fs@));
    v
}

/// The factory DPI for a mouse, by product id first and family rule second.
/// `name` is the HID product string, used only by family rules. Every Razer
/// mouse gets 1800, whatever it is called.
pub fn lookup(vendor_id: Option<i64>, product_id: Option<i64>, name: &str) -> (r: Option<KnownDpi>)
    ensures
        r == factory_dpi(vendor_id, product_id, name@),
        vendor_id == Some(VENDOR_RAZER) ==> (r matches Some(k) && k.dpi == 1800),
{
    let v = match vendor_id {
        Some(v) => v,
        None => return None,
    };
    if let Some(pid) = product_id {
        if let Some(m) = find_model(&models(), v, pid) {
            proof {
                lemma_first_model_is_listed(model_table(), v, pid);
                lemma_razer_models_at_1800();
            }
            return Some(KnownDpi { dpi: m.default_dpi, basis: Basis::Model(m) });
        }
    }
    let lower = to_lowercase(name);
    let fs = families();
    let patterns = lowered_pattern_list(&fs);
    let lower_name = chars_of(lower.as_str());
    let found = pick_family(&fs, &patterns, v, &lower_name);
    proof {
        if v == VENDOR_RAZER {
            reveal_strlit("");
            assert(fs@[0].name_contains@.len() == 0);
            lemma_razer_rule_applies(patterns@.map_values(|p: Vec<char>| p@), lower_name@);
        }
    }
    match found {
        Some(f) => Some(KnownDpi { dpi: f.default_dpi, basis: Basis::Family(f) }),
        None => None,
    }
}

} // verus!

verus! {

/// The table is well formed: no two models share a vendor and product id,
/// every figure is positive, and every model has a name.
pub proof fn lemma_table_well_formed()
    ensures
        forall|i: int, j: int|
            0 <= i < j < model_table().len() ==> !(model_table()[i].vendor_id
                == model_table()[j].vendor_id && model_table()[i].product_id
                == model_table()[j].product_id),
        forall|i: int| 0 <= i < model_table().len() ==> model_table()[i].default_dpi > 0,
        forall|i: int| 0 <= i < family_table().len() ==> family_table()[i].default_dpi > 0,
        forall|i: int| 0 <= i < model_table().len() ==> model_table()[i].name@.len() > 0,
        forall|i: int| 0 <= i < family_table().len() ==> family_table()[i].description@.len() > 0,
{
    let t = model_table();
    reveal_strlit("Razer DeathAdder 3.5G");
    reveal_strlit("Razer DeathAdder 2013");
    reveal_strlit("Razer DeathAdder 1800");
    reveal_strlit("Razer DeathAdder Chroma");
    reveal_strlit("Razer DeathAdder Elite");
    reveal_strlit("Razer DeathAdder Essential");
    reveal_strlit("Razer DeathAdder Essential (White Edition)");
    reveal_strlit("Razer DeathAdder Essential (2021)");
    reveal_strlit("Razer DeathAdder V2");
    reveal_strlit("Razer DeathAdder V2 Pro (wired)");
    reveal_strlit("Razer DeathAdder V2 Pro (wireless)");
    reveal_strlit("Razer DeathAdder V2 Mini");
    reveal_strlit("Razer DeathAdder V2 X HyperSpeed");
    reveal_strlit("Razer DeathAdder V3");
    reveal_strlit("Razer DeathAdder V3 Pro (wired)");
    reveal_strlit("Razer DeathAdder V3 Pro (wireless)");
    reveal_strlit("Razer Viper");
    reveal_strlit("Razer Viper Mini");
    reveal_strlit("Razer Viper Ultimate (wired)");
    reveal_strlit("Razer Viper Ultimate (wireless)");
    reveal_strlit("Razer Viper 8KHz");
    reveal_strlit("Razer Viper V2 Pro (wired)");
    reveal_strlit("Razer Viper V2 Pro (wireless)");
    reveal_strlit("Razer Basilisk");
    reveal_strlit("Razer Basilisk X HyperSpeed");
    reveal_strlit("Razer Basilisk V2");
    reveal_strlit("Razer Basilisk V3");
    reveal_strlit("Razer Naga Trinity");
    reveal_strlit("Razer Naga Pro (wired)");
    reveal_strlit("Razer Naga Pro (wireless)");
    reveal_strlit("Razer Naga X");
    reveal_strlit("Razer Orochi V2 (receiver)");
    reveal_strlit("Razer Orochi V2 (Bluetooth)");
    reveal_strlit("Logitech MX Master");
    reveal_strlit("Logitech MX Master 2S");
    reveal_strlit("Logitech MX Master 3");
    reveal_strlit("Logitech MX Master 3S");
    reveal_strlit("Logitech MX Anywhere 2");
    reveal_strlit("Logitech MX Anywhere 2S");
    reveal_strlit("Logitech MX Anywhere 3");
    reveal_strlit("Logitech MX Anywhere 3S");
    reveal_strlit("Logitech MX Vertical");
    reveal_strlit("Logitech M720 Triathlon");
    reveal_strlit("Apple Magic Mouse");
    reveal_strlit("Apple Magic Mouse 2");
    reveal_strlit("Razer's factory default for every mouse");
    reveal_strlit("Logitech's factory default for the MX Master line");
    reveal_strlit("Logitech's factory default for the MX Anywhere line");
    reveal_strlit("Logitech's factory default for the MX Vertical");
    reveal_strlit("Apple's specified resolution for the Magic Mouse");
    assert forall|i: int, j: int| 0 <= i < j < t.len() implies !(t[i].vendor_id == t[j].vendor_id
        && t[i].product_id == t[j].product_id) by {}
}

} // verus!

verus! {

proof fn lemma_first_model_is_the_only_match(ms: Seq<Model>, vendor_id: i64, product_id: i64, i: int)
    requires
        0 <= i < ms.len(),
        model_matches(ms[i], vendor_id, product_id),
        forall|j: int| 0 <= j < ms.len() && j != i ==> !model_matches(ms[j], vendor_id, product_id),
    ensures
        first_model(ms, vendor_id, product_id) == Some(ms[i]),
    decreases ms.len(),
{
    if i > 0 {
        let rest = ms.drop_first();
        assert forall|j: int| 0 <= j < rest.len() && j != i - 1 implies !model_matches(
            rest[j],
            vendor_id,
            product_id,
        ) by {
            assert(rest[j] == ms[j + 1]);
        }
        lemma_first_model_is_the_only_match(rest, vendor_id, product_id, i - 1);
    }
}

/// A mouse whose vendor and product id the table lists gets that model's
/// figure, whatever its name and whatever family rule would also apply.
pub proof fn lemma_listed_model_wins(i: int, name: Seq<char>)
    requires
        0 <= i < model_table().len(),
    ensures
        factory_dpi(Some(model_table()[i].vendor_id), Some(model_table()[i].product_id), name)
            == Some(KnownDpi { dpi: model_table()[i].default_dpi, basis: Basis::Model(model_table()[i]) }),
{
    let t = model_table();
    lemma_table_well_formed();
    assert forall|j: int| 0 <= j < t.len() && j != i implies !model_matches(
        t[j],
        t[i].vendor_id,
        t[i].product_id,
    ) by {
        if j < i {
            assert(!(t[j].vendor_id == t[i].vendor_id && t[j].product_id == t[i].product_id));
        } else {
            assert(!(t[i].vendor_id == t[j].vendor_id && t[i].product_id == t[j].product_id));
        }
    }
    lemma_first_model_is_the_only_match(t, t[i].vendor_id, t[i].product_id, i);
}

} // verus!

verus! {

proof fn lemma_first_model_is_listed(ms: Seq<Model>, vendor_id: i64, product_id: i64)
    ensures
        first_model(ms, vendor_id, product_id) matches Some(m) ==> exists|i: int|
            0 <= i < ms.len() && ms[i] == m && model_matches(m, vendor_id, product_id),
    decreases ms.len(),
{
    if ms.len() > 0 {
        if model_matches(ms[0], vendor_id, product_id) {
            assert(ms[0] == ms[0]);
        } else {
            let rest = ms.drop_first();
            lemma_first_model_is_listed(rest, vendor_id, product_id);
            if let Some(m) = first_model(rest, vendor_id, product_id) {
                let i = choose|i: int| 0 <= i < rest.len() && rest[i] == m && model_matches(m, vendor_id, product_id);
                assert(ms[i + 1] == m);
            }
        }
    }
}

/// Every Razer model in the table ships at 1800.
proof fn lemma_razer_models_at_1800()
    ensures
        forall|i: int|
            0 <= i < model_table().len() && model_table()[i].vendor_id == VENDOR_RAZER
                ==> model_table()[i].default_dpi == 1800,
{
    let t = model_table();
    assert forall|i: int| 0 <= i < t.len() && t[i].vendor_id == VENDOR_RAZER implies t[i].default_dpi == 1800 by {}
}

/// With the Razer rule's pattern empty, the Razer rule is the one chosen for
/// any Razer mouse, whatever its name.
proof fn lemma_razer_rule_applies(patterns: Seq<Seq<char>>, lower_name: Seq<char>)
    requires
        patterns.len() == family_table().len(),
        patterns[0].len() == 0,
    ensures
        best_rule(family_table(), patterns, VENDOR_RAZER, lower_name) == Some(family_table()[0]),
{
    let t = family_table();
    lemma_empty_pattern_occurs(lower_name);
    assert(patterns[0] =~= Seq::<char>::empty());
    let t1 = t.take(1);
    let t2 = t.take(2);
    let t3 = t.take(3);
    let t4 = t.take(4);
    assert(t1.drop_last() =~= Seq::<Family>::empty());
    assert(t2.drop_last() =~= t1);
    assert(t3.drop_last() =~= t2);
    assert(t4.drop_last() =~= t3);
    assert(t.drop_last() =~= t4);
    assert(best_rule(t1.drop_last(), patterns, VENDOR_RAZER, lower_name) is None);
    assert(best_rule(t1, patterns, VENDOR_RAZER, lower_name) == Some(t[0]));
    assert(best_rule(t2, patterns, VENDOR_RAZER, lower_name) == Some(t[0]));
    assert(best_rule(t3, patterns, VENDOR_RAZER, lower_name) == Some(t[0]));
    assert(best_rule(t4, patterns, VENDOR_RAZER, lower_name) == Some(t[0]));
}

} // verus!
