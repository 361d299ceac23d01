//! The command-line tool's decisions: which device a command is about,
//! resolving a mouse by index or by name, and the text of the files and
//! messages it writes.

use vstd::prelude::*;
use vstd::string::*;

use crate::config::{entries_named, entry_for, joined_path, join_path, Config, DeviceConfig, DeviceMatch};
use crate::hid::PointerDevice;
use crate::known::{factory_dpi, lookup, KnownDpi};
use crate::vendor::SensorDpi;
use crate::text::{
    chars_of, concat3, containing_positions, contains_text, decimal, decimal_numeral, join, joined, lowercase, lowercase_each,
    lowercased_all, occurs_at, parse_index, parsed_index, positions_containing, same_text, to_lowercase,
};

verus! {

/// The acceleration setting a `set` asks for: `--disable-acceleration`,
/// `--enable-acceleration`, or neither (keep what is there).
pub fn acceleration_toggle(disable: bool, enable: bool) -> (r: Option<bool>)
    ensures
        r == if disable {
            Some(true)
        } else if enable {
            Some(false)
        } else {
            None::<bool>
        },
{
    if disable {
        Some(true)
    } else if enable {
        Some(false)
    } else {
        None
    }
}

/// Why no device could be picked.
#[derive(Debug, Clone, PartialEq, Eq)]
pub enum PickError {
    /// The index given is past the end of the `count` connected devices.
    OutOfRange { index: usize, count: usize },
    /// No index was given and `count` devices, not one, are connected.
    Ambiguous { count: usize },
}

/// Pick the device to operate on: the given index, or the only mouse present.
pub fn pick_device(count: usize, device: Option<usize>) -> (r: Result<usize, PickError>)
    ensures
        match device {
            Some(i) => if i < count {
                r == Ok::<usize, PickError>(i)
            } else {
                r == Err::<usize, PickError>(PickError::OutOfRange { index: i, count })
            },
            None => if count == 1 {
                r == Ok::<usize, PickError>(0)
            } else {
                r == Err::<usize, PickError>(PickError::Ambiguous { count })
            },
        },
{
    match device {
        Some(i) => if i < count {
            Ok(i)
        } else {
            Err(PickError::OutOfRange { index: i, count })
        },
        None => if count == 1 {
            Ok(0)
        } else {
            Err(PickError::Ambiguous { count })
        },
    }
}

/// Why no device could be picked to calibrate against a reference.
#[derive(Debug, Clone, PartialEq, Eq)]
pub enum AgainstError {
    /// The index given is past the end of the `count` connected devices.
    OutOfRange { index: usize, count: usize },
    /// No index was given and several mice besides the reference are
    /// connected: these.
    Ambiguous(Vec<usize>),
    /// The device picked is the reference itself.
    IsReference(usize),
}

/// The connected devices other than the one at `reference`.
pub open spec fn others(count: nat, reference: usize) -> Seq<usize> {
    Seq::new(count, |i: int| i as usize).filter(|i: usize| i != reference)
}

/// The device to compare with the reference mouse at `reference`: the one
/// at `device`, or, when none is given, the only other mouse connected.
pub fn pick_against(count: usize, reference: usize, device: Option<usize>) -> (r: Result<usize, AgainstError>)
    requires
        reference < count,
    ensures
        match device {
            Some(i) => if i >= count {
                r == Err::<usize, AgainstError>(AgainstError::OutOfRange { index: i, count })
            } else if i == reference {
                r == Err::<usize, AgainstError>(AgainstError::IsReference(i))
            } else {
                r == Ok::<usize, AgainstError>(i)
            },
            None => if count == 2 {
                r == Ok::<usize, AgainstError>(if reference == 0 { 1 } else { 0 })
            } else {
                r matches Err(AgainstError::Ambiguous(v)) && v@ == Seq::new(count as nat, |i: int| i as usize).filter(
                    |i: usize| i != reference,
                )
            },
        },
{
    match device {
        Some(i) => {
            if i >= count {
                Err(AgainstError::OutOfRange { index: i, count })
            } else if i == reference {
                Err(AgainstError::IsReference(i))
            } else {
                Ok(i)
            }
        },
        None => {
            let ghost all = Seq::new(count as nat, |i: int| i as usize);
            let ghost keep = |i: usize| i != reference;
            let mut rest: Vec<usize> = Vec::new();
            let mut i: usize = 0;
            while i < count
                invariant
                    reference < count,
                    i <= count,
                    all == Seq::new(count as nat, |i: int| i as usize),
                    keep == (|i: usize| i != reference),
                    rest@ == all.take(i as int).filter(keep),
                decreases count - i,
            {
                reveal_with_fuel(Seq::<_>::filter, 1);
                assert(all.take(i + 1).drop_last() =~= all.take(i as int));
                if i != reference {
                    rest.push(i);
                }
                i = i + 1;
            }
            assert(all.take(count as int) =~= all);
            if count == 2 {
                proof {
                    reveal_with_fuel(Seq::<_>::filter, 3);
                    assert(all.take(1).drop_last() =~= all.take(0));
                    assert(all.take(2).drop_last() =~= all.take(1));
                    assert(all.take(2) =~= all);
                }
                Ok(if reference == 0 { 1 } else { 0 })
            } else {
                Err(AgainstError::Ambiguous(rest))
            }
        },
    }
}

/// How a device appears in a list of candidates: "[index] name".
pub open spec fn device_label(index: int, name: Seq<char>) -> Seq<char> {
    "["@ + decimal_numeral(index as nat) + "] "@ + name
}

fn label(index: usize, name: &str) -> (s: String)
    ensures
        s@ == device_label(index as int, name@),
{
    let mut s = String::from_str("[");
    s.append(decimal(index as u64).as_str());
    s.append("] ");
    s.append(name);
    s
}

/// The positions of the devices whose name contains `needle`, ignoring case.
pub open spec fn name_hits(devices: Seq<PointerDevice>, needle: Seq<char>) -> Seq<int> {
    containing_positions(lowercased_all(devices.map_values(|d: PointerDevice| d.name@)), lowercase(needle))
}

/// The names of the devices, in order.
fn device_names<'a>(devices: &'a Vec<PointerDevice>) -> (v: Vec<&'a str>)
    ensures
        v@.map_values(|t: &str| t@) == devices@.map_values(|d: PointerDevice| d.name@),
{
    let mut v: Vec<&'a str> = Vec::new();
    let mut i: usize = 0;
    while i < devices.len()
        invariant
            i <= devices.len(),
            v@.len() == i,
            forall|j: int| 0 <= j < i ==> (#[trigger] v@[j])@ == devices@[j].name@,
        decreases devices.len() - i,
    {
        v.push(devices[i].name.as_str());
        i = i + 1;
    }
    assert(v@.map_values(|t: &str| t@) =~= devices@.map_values(|d: PointerDevice| d.name@));
    v
}

/// The labels of the devices at `positions`.
pub open spec fn labels_at(devices: Seq<PointerDevice>, positions: Seq<int>) -> Seq<Seq<char>> {
    Seq::new(positions.len(), |k: int| device_label(positions[k], devices[positions[k]].name@))
}

/// The outcome of looking up a connected mouse by `key`.
pub open spec fn resolution(devices: Seq<PointerDevice>, key: Seq<char>) -> Result<int, Seq<char>> {
    match parsed_index(key) {
        Some(i) => if i < devices.len() {
            Ok(i as int)
        } else {
            Err(
                "device index "@ + decimal_numeral(i) + " out of range ("@ + decimal_numeral(devices.len())
                    + " connected)"@,
            )
        },
        None => {
            let hits = name_hits(devices, key);
            if hits.len() == 1 {
                Ok(hits[0])
            } else if hits.len() == 0 {
                Err(
                    "no connected mouse matches \""@ + key + "\"; connected: "@ + joined(
                        labels_at(devices, Seq::new(devices.len(), |i: int| i)),
                        ", "@,
                    ),
                )
            } else {
                Err("\""@ + key + "\" is ambiguous; matches "@ + joined(labels_at(devices, hits), ", "@))
            }
        },
    }
}

fn labels(devices: &Vec<PointerDevice>, positions: &Vec<usize>) -> (v: Vec<String>)
    requires
        forall|k: int| 0 <= k < positions@.len() ==> positions@[k] < devices@.len(),
    ensures
        v@.map_values(|t: String| t@) == labels_at(
            devices@,
            positions@.map_values(|p: usize| p as int),
        ),
{
    let mut v: Vec<String> = Vec::new();
    let mut k: usize = 0;
    while k < positions.len()
        invariant
            k <= positions@.len(),
            forall|j: int| 0 <= j < positions@.len() ==> positions@[j] < devices@.len(),
            v@.len() == k,
            forall|j: int|
                0 <= j < k ==> (#[trigger] v@[j])@ == device_label(
                    positions@[j] as int,
                    devices@[positions@[j] as int].name@,
                ),
        decreases positions.len() - k,
    {
        let p = positions[k];
        v.push(label(p, devices[p].name.as_str()));
        k = k + 1;
    }
    assert(v@.map_values(|t: String| t@) =~= labels_at(
        devices@,
        positions@.map_values(|p: usize| p as int),
    ));
    v
}

/// Find a connected device by index or by case-insensitive name substring.
pub fn resolve_connected<'a>(devices: &'a Vec<PointerDevice>, key: &str) -> (r: Result<(usize, &'a PointerDevice), String>)
    ensures
        match resolution(devices@, key@) {
            Ok(i) => r matches Ok((j, d)) && j == i && *d == devices@[i],
            Err(e) => r matches Err(f) && f@ == e,
        },
{
    if let Some(i) = parse_index(key) {
        if i < devices.len() {
            return Ok((i, &devices[i]));
        }
        let mut e = String::from_str("device index ");
        e.append(decimal(i as u64).as_str());
        e.append(" out of range (");
        e.append(decimal(devices.len() as u64).as_str());
        e.append(" connected)");
        return Err(e);
    }
    let names = device_names(devices);
    let lowered = lowercase_each(&names);
    let lowered_key = to_lowercase(key);
    let hits = positions_containing(&lowered, &chars_of(lowered_key.as_str()));
    let ghost hs = name_hits(devices@, key@);
    if hits.len() == 1 {
        assert(hs[0] == hits@[0] as int);
        return Ok((hits[0], &devices[hits[0]]));
    }
    if hits.len() == 0 {
        let all = listed_positions(devices.len());
        let names = labels(devices, &all);
        let mut e = String::from_str("no connected mouse matches \"");
        e.append(key);
        e.append("\"; connected: ");
        e.append(join(&names, ", ").as_str());
        assert(all@.map_values(|p: usize| p as int) =~= Seq::new(devices@.len(), |i: int| i));
        return Err(e);
    }
    let names = labels(devices, &hits);
    let mut e = String::from_str("\"");
    e.append(key);
    e.append("\" is ambiguous; matches ");
    e.append(join(&names, ", ").as_str());
    Err(e)
}

fn listed_positions(count: usize) -> (v: Vec<usize>)
    ensures
        v@ == Seq::new(count as nat, |i: int| i as usize),
{
    let mut v: Vec<usize> = Vec::new();
    let mut i: usize = 0;
    while i < count
        invariant
            i <= count,
            v@ == Seq::new(i as nat, |j: int| j as usize),
        decreases count - i,
    {
        v.push(i);
        i = i + 1;
        assert(v@ =~= Seq::new(i as nat, |j: int| j as usize));
    }
    v
}

/// The daemon and the CLI enumerate devices separately, so find the
/// daemon's index for a device by identity (ids and name) in the daemon's
/// own listing of `(index, device)` pairs, rather than trusting ours.
pub fn resolve_daemon_index(listed: &Vec<(usize, PointerDevice)>, d: &PointerDevice) -> (r: Result<usize, String>)
    ensures
        match r {
            Ok(index) => exists|k: int|
                0 <= k < listed@.len() && listed@[k].0 == index && listed@[k].1.vendor_id
                    == d.vendor_id && listed@[k].1.product_id == d.product_id && listed@[k].1.name@
                    == d.name@ && forall|j: int|
                    0 <= j < k ==> !(#[trigger] listed@[j].1.vendor_id == d.vendor_id
                        && listed@[j].1.product_id == d.product_id && listed@[j].1.name@ == d.name@),
            Err(e) => e@ == "the daemon does not see "@ + d.name@ && forall|j: int|
                0 <= j < listed@.len() ==> !(#[trigger] listed@[j].1.vendor_id == d.vendor_id
                    && listed@[j].1.product_id == d.product_id && listed@[j].1.name@ == d.name@),
        },
{
    let mut k: usize = 0;
    while k < listed.len()
        invariant
            k <= listed@.len(),
            forall|j: int|
                0 <= j < k ==> !(#[trigger] listed@[j].1.vendor_id == d.vendor_id
                    && listed@[j].1.product_id == d.product_id && listed@[j].1.name@ == d.name@),
        decreases listed.len() - k,
    {
        let x = &listed[k].1;
        let same_vendor = match (x.vendor_id, d.vendor_id) {
            (Some(a), Some(b)) => a == b,
            (None, None) => true,
            _ => false,
        };
        let same_product = match (x.product_id, d.product_id) {
            (Some(a), Some(b)) => a == b,
            (None, None) => true,
            _ => false,
        };
        if same_vendor && same_product && same_text(x.name.as_str(), d.name.as_str()) {
            return Ok(listed[k].0);
        }
        k = k + 1;
    }
    let mut e = String::from_str("the daemon does not see ");
    e.append(d.name.as_str());
    Err(e)
}

/// The outcome of looking up a configured mouse by `needle`.
pub open spec fn saved_resolution<S>(devices: Seq<DeviceConfig<S>>, needle: Seq<char>) -> Result<DeviceConfig<S>, Seq<char>> {
    let hits = entries_named(devices, needle);
    if hits.len() == 1 {
        Ok(hits[0])
    } else if hits.len() == 0 {
        let names = Seq::new(devices.len(), |i: int| devices[i].name@);
        Err(
            "no configured mouse matches \""@ + needle + "\"; known: "@ + if names.len() == 0 {
                "(none)"@
            } else {
                joined(names, ", "@)
            },
        )
    } else {
        Err(
            "\""@ + needle + "\" is ambiguous; matches "@ + joined(
                Seq::new(hits.len(), |i: int| hits[i].name@),
                ", "@,
            ),
        )
    }
}

fn names_of<S>(entries: &Vec<&DeviceConfig<S>>) -> (v: Vec<String>)
    ensures
        v@.len() == entries@.len(),
        forall|i: int| 0 <= i < v@.len() ==> (#[trigger] v@[i])@ == entries@[i].name@,
{
    let mut v: Vec<String> = Vec::new();
    let mut i: usize = 0;
    while i < entries.len()
        invariant
            i <= entries@.len(),
            v@.len() == i,
            forall|j: int| 0 <= j < i ==> (#[trigger] v@[j])@ == entries@[j].name@,
        decreases entries.len() - i,
    {
        v.push(entries[i].name.clone());
        i = i + 1;
    }
    v
}

/// Find a config entry by case-insensitive name substring; the mouse need
/// not be connected.
pub fn find_saved<'a, S: Copy>(cfg: &'a Config<S>, needle: &str) -> (r: Result<&'a DeviceConfig<S>, String>)
    ensures
        match saved_resolution(cfg.devices@, needle@) {
            Ok(d) => r matches Ok(e) && *e == d,
            Err(m) => r matches Err(f) && f@ == m,
        },
{
    let candidates = cfg.find_by_name(needle);
    if candidates.len() == 1 {
        return Ok(candidates[0]);
    }
    if candidates.len() == 0 {
        let mut all: Vec<&DeviceConfig<S>> = Vec::new();
        let mut i: usize = 0;
        while i < cfg.devices.len()
            invariant
                i <= cfg.devices@.len(),
                all@.len() == i,
                forall|j: int| 0 <= j < i ==> *(#[trigger] all@[j]) == cfg.devices@[j],
            decreases cfg.devices.len() - i,
        {
            all.push(&cfg.devices[i]);
            i = i + 1;
        }
        let names = names_of(&all);
        let mut e = String::from_str("no configured mouse matches \"");
        e.append(needle);
        e.append("\"; known: ");
        if names.len() == 0 {
            e.append("(none)");
        } else {
            e.append(join(&names, ", ").as_str());
            assert(names@.map_values(|t: String| t@) =~= Seq::new(
                cfg.devices@.len(),
                |i: int| cfg.devices@[i].name@,
            ));
        }
        return Err(e);
    }
    let names = names_of(&candidates);
    let ghost hits = entries_named(cfg.devices@, needle@);
    assert(names@.map_values(|t: String| t@) =~= Seq::new(hits.len(), |i: int| hits[i].name@));
    let mut e = String::from_str("\"");
    e.append(needle);
    e.append("\" is ambiguous; matches ");
    e.append(join(&names, ", ").as_str());
    Err(e)
}

/// The message for a mouse named `name` that the factory table does not list.
pub open spec fn not_in_table_text(name: Seq<char>) -> Seq<char> {
    name
        + " is not in the built-in table of factory DPI values (`dpi --list-known`); measure it with `calibrate` or record it by hand with `set --dpi <value>`"@
}

/// The message for a mouse that the factory table does not list.
pub fn not_in_table(name: &str) -> (s: String)
    ensures
        s@ == not_in_table_text(name@),
{
    let mut s = String::from_str(name);
    s.append(
        " is not in the built-in table of factory DPI values (`dpi --list-known`); measure it with `calibrate` or record it by hand with `set --dpi <value>`",
    );
    s
}

/// What `dpi` does before asking the mouse. With `--known` (`use_table`) it
/// takes the factory figure `table` that the built-in table gives for the
/// mouse named `name`, or fails when the table does not list it; otherwise
/// it asks the mouse (`Ok(None)`). A figure comes with the table entry it
/// came from.
pub fn dpi_plan(use_table: bool, table: Option<KnownDpi>, name: &str) -> (r: Result<Option<(u32, Option<KnownDpi>)>, String>)
    ensures
        !use_table ==> r matches Ok(None),
        use_table ==> match table {
            Some(k) => r matches Ok(Some((d, f))) && d == k.dpi && f == Some(k),
            None => r matches Err(e) && e@ == not_in_table_text(name@),
        },
{
    if !use_table {
        return Ok(None);
    }
    match table {
        Some(k) => Ok(Some((k.dpi, Some(k)))),
        None => Err(not_in_table(name)),
    }
}

/// What `dpi` reports once it has asked the mouse: the sensor's x
/// resolution when the mouse answered; when it did not, the factory figure
/// `table` for the mouse named `name`, with the entry it came from; and when
/// the table does not list the mouse either, the mouse's error followed by
/// the not-in-table message on a continuation line.
pub fn dpi_after_query(reading: Result<SensorDpi, String>, table: Option<KnownDpi>, name: &str) -> (r: Result<(u32, Option<KnownDpi>), String>)
    ensures
        match reading {
            Ok(d) => r matches Ok((x, f)) && x == d.dpi_x && f is None,
            Err(e) => match table {
                Some(k) => r matches Ok((x, f)) && x == k.dpi && f == Some(k),
                None => r matches Err(m) && m@ == e@ + "\n       "@ + not_in_table_text(name@),
            },
        },
{
    match reading {
        Ok(d) => Ok((d.dpi_x, None)),
        Err(e) => match table {
            Some(k) => Ok((k.dpi, Some(k))),
            None => {
                let mut m = e;
                m.append("\n       ");
                m.append(not_in_table(name).as_str());
                Err(m)
            },
        },
    }
}

/// The vendor and product id to ask a mouse's vendor protocol with.
pub fn query_ids(dev: &PointerDevice) -> (r: Result<(i64, i64), String>)
    ensures
        match (dev.vendor_id, dev.product_id) {
            (Some(v), Some(p)) => r == Ok::<(i64, i64), String>((v, p)),
            _ => r matches Err(e) && e@ == dev.name@ + " reports no vendor/product id"@,
        },
{
    match (dev.vendor_id, dev.product_id) {
        (Some(v), Some(p)) => Ok((v, p)),
        _ => {
            let mut e = String::from_str(dev.name.as_str());
            e.append(" reports no vendor/product id");
            Err(e)
        },
    }
}

/// A DPI figure and where it came from: recorded in the config (measured,
/// read from the mouse, or typed in) or a factory default from the
/// built-in table.
#[derive(Debug, Clone, Copy, PartialEq)]
pub enum DpiFigure<D> {
    Recorded(D),
    Factory(KnownDpi),
}

impl<D> DpiFigure<D> {
    pub fn is_factory(&self) -> (r: bool)
        ensures
            r == (*self is Factory),
    {
        match self {
            DpiFigure::Recorded(_) => false,
            DpiFigure::Factory(_) => true,
        }
    }

    /// "factory default" or "recorded".
    pub fn provenance(&self) -> (s: &'static str)
        ensures
            s@ == if *self is Factory {
                "factory default"@
            } else {
                "recorded"@
            },
    {
        if self.is_factory() {
            "factory default"
        } else {
            "recorded"
        }
    }
}

/// The figure to use: what is recorded, else the factory default for the
/// mouse with these ids and this name.
pub open spec fn figure_of<D>(recorded: Option<D>, matcher: DeviceMatch, name: Seq<char>) -> Option<DpiFigure<D>> {
    match recorded {
        Some(d) => Some(DpiFigure::Recorded(d)),
        None => match factory_dpi(matcher.vendor_id, matcher.product_id, name) {
            Some(k) => Some(DpiFigure::Factory(k)),
            None => None,
        },
    }
}

/// The DPI to use for a config entry: what's recorded (`recorded`), else the
/// factory default.
pub fn dpi_for_entry<D: Copy>(recorded: Option<D>, matcher: &DeviceMatch, name: &str) -> (r: Option<DpiFigure<D>>)
    ensures
        r == figure_of(recorded, *matcher, name@),
{
    match recorded {
        Some(d) => Some(DpiFigure::Recorded(d)),
        None => match lookup(matcher.vendor_id, matcher.product_id, name) {
            Some(k) => Some(DpiFigure::Factory(k)),
            None => None,
        },
    }
}

/// The DPI to use for a connected device: what its config entry records
/// (read from the entry's settings by `recorded`), else the factory default.
pub fn dpi_for_device<S: Copy, D: Copy>(cfg: &Config<S>, dev: &PointerDevice, recorded: impl Fn(S) -> Option<D>) -> (r: Option<DpiFigure<D>>)
    requires
        forall|s: S| call_requires(recorded, (s,)),
    ensures
        ({
            let m = DeviceMatch { vendor_id: dev.vendor_id, product_id: dev.product_id };
            match entry_for(cfg.devices@, dev.vendor_id, dev.product_id) {
                Some(i) => exists|d: Option<D>|
                    call_ensures(recorded, (cfg.devices@[i].settings,), d) && r == figure_of(
                        d,
                        m,
                        dev.name@,
                    ),
                None => r == figure_of(None::<D>, m, dev.name@),
            }
        }),
{
    let m = DeviceMatch { vendor_id: dev.vendor_id, product_id: dev.product_id };
    match cfg.entry_index(dev.vendor_id, dev.product_id) {
        Some(i) => {
            let d = recorded(cfg.devices[i].settings);
            let r = dpi_for_entry(d, &m, dev.name.as_str());
            assert(call_ensures(recorded, (cfg.devices@[i as int].settings,), d));
            r
        },
        None => dpi_for_entry(None, &m, dev.name.as_str()),
    }
}

/// A recorded figure always wins over the factory table, and without one
/// the factory default is used whenever the table knows the mouse.
pub proof fn lemma_recorded_dpi_wins<D>(recorded: Option<D>, matcher: DeviceMatch, name: Seq<char>)
    ensures
        recorded matches Some(d) ==> figure_of(recorded, matcher, name) == Some(DpiFigure::<D>::Recorded(d)),
        recorded is None ==> (figure_of(recorded, matcher, name) is Some <==> factory_dpi(
            matcher.vendor_id,
            matcher.product_id,
            name,
        ) is Some),
{
}

/// What the hint after a calibration needs of a config entry: which mouse
/// it is for, its name, whether acceleration is off for it (`linear`), and
/// the DPI recorded for it.
pub struct MatchEntry<D> {
    pub matcher: DeviceMatch,
    pub name: String,
    pub linear: bool,
    pub recorded: Option<D>,
}

/// The figure an entry offers as something to match `dev` against: none for
/// `dev`'s own entry or an entry with acceleration on, else its figure.
pub open spec fn candidate_figure<D>(e: MatchEntry<D>, dev: PointerDevice) -> Option<DpiFigure<D>> {
    if !e.matcher.accepts(dev.vendor_id, dev.product_id) && e.linear {
        figure_of(e.recorded, e.matcher, e.name@)
    } else {
        None
    }
}

/// The entries that offer a figure to match `dev` against, by position, in
/// order, each with its figure.
pub open spec fn candidates_of<D>(entries: Seq<MatchEntry<D>>, dev: PointerDevice) -> Seq<(int, DpiFigure<D>)>
    decreases entries.len(),
{
    if entries.len() == 0 {
        Seq::empty()
    } else {
        let prev = candidates_of(entries.drop_last(), dev);
        match candidate_figure(entries.last(), dev) {
            Some(f) => prev.push((entries.len() - 1, f)),
            None => prev,
        }
    }
}

/// The entry at `i` offers the figure `f` to match `dev` against: it is not
/// `dev`'s own entry (its ids differ from `dev`'s in either place), its
/// mouse runs with acceleration off, and `f` is its figure.
pub open spec fn offers<D>(entries: Seq<MatchEntry<D>>, i: int, dev: PointerDevice, f: DpiFigure<D>) -> bool {
    &&& !(entries[i].matcher.vendor_id == dev.vendor_id && entries[i].matcher.product_id == dev.product_id)
    &&& entries[i].linear
    &&& figure_of(entries[i].recorded, entries[i].matcher, entries[i].name@) == Some(f)
}

/// The candidates are exactly the entries that offer a figure, each once,
/// in the order of the entries. Only `dev`'s own entry is left out: an entry
/// of the same vendor with another product id is a candidate.
pub proof fn lemma_candidates_are_the_other_linear_mice_with_a_figure<D>(entries: Seq<MatchEntry<D>>, dev: PointerDevice)
    ensures
        forall|k: int|
            0 <= k < candidates_of(entries, dev).len() ==> {
                let c = #[trigger] candidates_of(entries, dev)[k];
                0 <= c.0 < entries.len() && offers(entries, c.0, dev, c.1)
            },
        forall|i: int, f: DpiFigure<D>|
            0 <= i < entries.len() && #[trigger] offers(entries, i, dev, f) ==> exists|k: int|
                0 <= k < candidates_of(entries, dev).len() && candidates_of(entries, dev)[k] == (i, f),
        forall|k: int, l: int|
            0 <= k < l < candidates_of(entries, dev).len() ==> candidates_of(entries, dev)[k].0
                < candidates_of(entries, dev)[l].0,
    decreases entries.len(),
{
    if entries.len() > 0 {
        let rest = entries.drop_last();
        let n = entries.len() - 1;
        lemma_candidates_are_the_other_linear_mice_with_a_figure(rest, dev);
        let prev = candidates_of(rest, dev);
        let all = candidates_of(entries, dev);
        assert forall|i: int, f: DpiFigure<D>| 0 <= i < n implies offers(rest, i, dev, f) == offers(
            entries,
            i,
            dev,
            f,
        ) by {
            assert(rest[i] == entries[i]);
        }
        assert forall|k: int| 0 <= k < prev.len() implies all[k] == prev[k] by {}
        assert forall|k: int| 0 <= k < all.len() implies {
            let c = #[trigger] all[k];
            0 <= c.0 < entries.len() && offers(entries, c.0, dev, c.1)
        } by {
            if k < prev.len() {
                let c = prev[k];
                assert(offers(rest, c.0, dev, c.1));
            }
        }
        assert forall|i: int, f: DpiFigure<D>| 0 <= i < entries.len() && #[trigger] offers(
            entries,
            i,
            dev,
            f,
        ) implies exists|k: int| 0 <= k < all.len() && all[k] == (i, f) by {
            if i < n {
                assert(offers(rest, i, dev, f));
                let k = choose|k: int| 0 <= k < prev.len() && prev[k] == (i, f);
                assert(all[k] == (i, f));
            } else {
                assert(all[prev.len() as int] == (i, f));
            }
        }
        assert forall|k: int, l: int| 0 <= k < l < all.len() implies all[k].0 < all[l].0 by {
            if l < prev.len() {
            } else {
                let c = prev[k];
                assert(offers(rest, c.0, dev, c.1));
            }
        }
    }
}

/// The mice `dev` can be matched against after a calibration: the other
/// entries with acceleration off that have a DPI on record or in the
/// built-in table, by position in `entries`, each with its figure.
pub fn match_candidates<D: Copy>(entries: &Vec<MatchEntry<D>>, dev: &PointerDevice) -> (r: Vec<(usize, DpiFigure<D>)>)
    ensures
        r@.map_values(|c: (usize, DpiFigure<D>)| (c.0 as int, c.1)) == candidates_of(entries@, *dev),
{
    let mut r: Vec<(usize, DpiFigure<D>)> = Vec::new();
    let mut i: usize = 0;
    while i < entries.len()
        invariant
            i <= entries.len(),
            r@.map_values(|c: (usize, DpiFigure<D>)| (c.0 as int, c.1)) == candidates_of(
                entries@.take(i as int),
                *dev,
            ),
        decreases entries.len() - i,
    {
        let e = &entries[i];
        assert(entries@.take(i + 1).drop_last() =~= entries@.take(i as int));
        assert(entries@.take(i + 1).last() == *e);
        if !e.matcher.matches(dev.vendor_id, dev.product_id) && e.linear {
            if let Some(f) = dpi_for_entry(e.recorded, &e.matcher, e.name.as_str()) {
                r.push((i, f));
            }
        }
        i = i + 1;
        assert(r@.map_values(|c: (usize, DpiFigure<D>)| (c.0 as int, c.1)) =~= candidates_of(
            entries@.take(i as int),
            *dev,
        ));
    }
    assert(entries@.take(entries.len() as int) =~= entries@);
    r
}

/// The launchd label of the daemon.
pub const LAUNCH_AGENT_LABEL: &'static str = "com.wcharczuk.mouse-sensitivity";

/// Where the LaunchAgent plist goes, under the home directory `home`.
pub fn launch_agent_path(home: &str) -> (p: String)
    ensures
        p@ == joined_path(
            joined_path(home@, "Library/LaunchAgents"@),
            "com.wcharczuk.mouse-sensitivity.plist"@,
        ),
{
    let dir = join_path(home, "Library/LaunchAgents");
    join_path(dir.as_str(), "com.wcharczuk.mouse-sensitivity.plist")
}

pub open spec fn plist_head() -> Seq<char> {
    "<?xml version=\"1.0\" encoding=\"UTF-8\"?>\n<!DOCTYPE plist PUBLIC \"-//Apple//DTD PLIST 1.0//EN\" \"http://www.apple.com/DTDs/PropertyList-1.0.dtd\">\n<plist version=\"1.0\">\n<dict>\n    <key>Label</key>\n    <string>com.wcharczuk.mouse-sensitivity</string>\n    <key>ProgramArguments</key>\n    <array>\n        <string>"@
}

pub open spec fn plist_after_exe() -> Seq<char> {
    "</string>\n        <string>daemon</string>\n    </array>\n    <key>RunAtLoad</key>\n    <true/>\n    <key>KeepAlive</key>\n    <true/>\n    <key>StandardOutPath</key>\n    <string>"@
}

pub open spec fn plist_between_logs() -> Seq<char> {
    "</string>\n    <key>StandardErrorPath</key>\n    <string>"@
}

pub open spec fn plist_tail() -> Seq<char> {
    "</string>\n</dict>\n</plist>\n"@
}

/// The text of the LaunchAgent plist that runs `exe daemon` and logs to `log`.
pub open spec fn launch_agent_text(exe: Seq<char>, log: Seq<char>) -> Seq<char> {
    plist_head() + exe + plist_after_exe() + log + plist_between_logs() + log + plist_tail()
}

/// Whatever the program and log paths, the LaunchAgent is labelled with the
/// daemon's label, runs `exe daemon`, starts it at login and keeps it alive
/// (the `RunAtLoad` and `KeepAlive` keys are each followed by `<true/>`),
/// and sends both its output and its errors to `log`.
pub proof fn lemma_launch_agent_runs_at_load_and_keeps_alive(exe: Seq<char>, log: Seq<char>)
    ensures
        contains_text(launch_agent_text(exe, log), "<key>Label</key>\n    <string>com.wcharczuk.mouse-sensitivity</string>"@),
        contains_text(launch_agent_text(exe, log), "<key>ProgramArguments</key>\n    <array>\n        <string>"@ + exe + "</string>\n        <string>daemon</string>\n    </array>"@),
        contains_text(launch_agent_text(exe, log), "<key>RunAtLoad</key>\n    <true/>"@),
        contains_text(launch_agent_text(exe, log), "<key>KeepAlive</key>\n    <true/>"@),
        contains_text(launch_agent_text(exe, log), "<key>StandardOutPath</key>\n    <string>"@ + log + "</string>"@),
        contains_text(launch_agent_text(exe, log), "<key>StandardErrorPath</key>\n    <string>"@ + log + "</string>"@),
{
    reveal_strlit("<?xml version=\"1.0\" encoding=\"UTF-8\"?>\n<!DOCTYPE plist PUBLIC \"-//Apple//DTD PLIST 1.0//EN\" \"http://www.apple.com/DTDs/PropertyList-1.0.dtd\">\n<plist version=\"1.0\">\n<dict>\n    <key>Label</key>\n    <string>com.wcharczuk.mouse-sensitivity</string>\n    <key>ProgramArguments</key>\n    <array>\n        <string>");
    reveal_strlit("</string>\n        <string>daemon</string>\n    </array>\n    <key>RunAtLoad</key>\n    <true/>\n    <key>KeepAlive</key>\n    <true/>\n    <key>StandardOutPath</key>\n    <string>");
    reveal_strlit("</string>\n    <key>StandardErrorPath</key>\n    <string>");
    reveal_strlit("</string>\n</dict>\n</plist>\n");
    reveal_strlit("<key>Label</key>\n    <string>com.wcharczuk.mouse-sensitivity</string>");
    reveal_strlit("<key>ProgramArguments</key>\n    <array>\n        <string>");
    reveal_strlit("</string>\n        <string>daemon</string>\n    </array>");
    reveal_strlit("<key>RunAtLoad</key>\n    <true/>");
    reveal_strlit("<key>KeepAlive</key>\n    <true/>");
    reveal_strlit("<key>StandardOutPath</key>\n    <string>");
    reveal_strlit("<key>StandardErrorPath</key>\n    <string>");
    reveal_strlit("</string>");
    let t = launch_agent_text(exe, log);
    let h = plist_head();
    let a = plist_after_exe();
    let b = plist_between_logs();
    let e: int = exe.len() as int;
    let l: int = log.len() as int;
    let off: int = h.len() + e;
    let label = "<key>Label</key>\n    <string>com.wcharczuk.mouse-sensitivity</string>"@;
    assert(t.subrange(175, 244) =~= label);
    assert(occurs_at(t, label, 175));
    let args = "<key>ProgramArguments</key>\n    <array>\n        <string>"@ + exe + "</string>\n        <string>daemon</string>\n    </array>"@;
    assert(t.subrange(249, 249 + args.len() as int) =~= args);
    assert(occurs_at(t, args, 249));
    let run = "<key>RunAtLoad</key>\n    <true/>"@;
    assert(t.subrange(off + 59, off + 91) =~= run);
    assert(occurs_at(t, run, off + 59));
    let keep = "<key>KeepAlive</key>\n    <true/>"@;
    assert(t.subrange(off + 96, off + 128) =~= keep);
    assert(occurs_at(t, keep, off + 96));
    let out = "<key>StandardOutPath</key>\n    <string>"@ + log + "</string>"@;
    assert(t.subrange(off + 133, off + 133 + out.len()) =~= out);
    assert(occurs_at(t, out, off + 133));
    let err = "<key>StandardErrorPath</key>\n    <string>"@ + log + "</string>"@;
    let eo: int = off + a.len() + l + 14;
    assert(t.subrange(eo, eo + err.len()) =~= err);
    assert(occurs_at(t, err, eo));
}

/// The LaunchAgent that runs `exe daemon` at login, keeps it alive and
/// sends its output to `log`.
pub fn launch_agent_plist(exe: &str, log: &str) -> (s: String)
    ensures
        s@ == launch_agent_text(exe@, log@),
{
    let mut s = String::from_str(
        "<?xml version=\"1.0\" encoding=\"UTF-8\"?>\n<!DOCTYPE plist PUBLIC \"-//Apple//DTD PLIST 1.0//EN\" \"http://www.apple.com/DTDs/PropertyList-1.0.dtd\">\n<plist version=\"1.0\">\n<dict>\n    <key>Label</key>\n    <string>com.wcharczuk.mouse-sensitivity</string>\n    <key>ProgramArguments</key>\n    <array>\n        <string>",
    );
    s.append(exe);
    s.append(
        "</string>\n        <string>daemon</string>\n    </array>\n    <key>RunAtLoad</key>\n    <true/>\n    <key>KeepAlive</key>\n    <true/>\n    <key>StandardOutPath</key>\n    <string>",
    );
    s.append(log);
    s.append("</string>\n    <key>StandardErrorPath</key>\n    <string>");
    s.append(log);
    s.append("</string>\n</dict>\n</plist>\n");
    s
}

} // verus!
