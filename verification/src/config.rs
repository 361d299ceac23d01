//! Persistent configuration for the daemon.
//!
//! Settings are matched to devices by (vendor_id, product_id) so they survive
//! device index reordering across reconnects. The configuration is generic
//! in what a device's settings hold: the lookups and updates here never
//! read them.

use vstd::prelude::*;
use vstd::string::*;

use crate::text::{
    chars_of, containing_positions, lemma_empty_pattern_everywhere, lowercase, lowercase_each, lowercased_all,
    positions_containing, to_lowercase,
};

verus! {

/// Which device a config entry belongs to.
#[derive(Debug, Clone, Copy, PartialEq, Eq, Hash)]
pub struct DeviceMatch {
    pub vendor_id: Option<i64>,
    pub product_id: Option<i64>,
}

fn same_id(a: Option<i64>, b: Option<i64>) -> (r: bool)
    ensures
        r == (a == b),
{
    match (a, b) {
        (Some(x), Some(y)) => x == y,
        (None, None) => true,
        _ => false,
    }
}

impl DeviceMatch {
    /// The entry is for the device with these ids.
    pub open spec fn accepts(&self, vendor_id: Option<i64>, product_id: Option<i64>) -> bool {
        self.vendor_id == vendor_id && self.product_id == product_id
    }

    pub fn matches(&self, vendor_id: Option<i64>, product_id: Option<i64>) -> (r: bool)
        ensures
            r == self.accepts(vendor_id, product_id),
    {
        same_id(self.vendor_id, vendor_id) && same_id(self.product_id, product_id)
    }
}

/// The settings recorded for one device, with the name it had when they
/// were last written.
#[derive(Debug, Clone)]
pub struct DeviceConfig<S> {
    pub matcher: DeviceMatch,
    pub name: String,
    pub settings: S,
}

/// Every device's settings, and the settings for devices without an entry.
#[derive(Debug, Clone)]
pub struct Config<S> {
    pub devices: Vec<DeviceConfig<S>>,
    pub default: Option<S>,
}

impl<S> Default for Config<S> {
    /// No entries and no default.
    fn default() -> (c: Self)
        ensures
            c.devices@.len() == 0,
            c.default is None,
    {
        Config { devices: Vec::new(), default: None }
    }
}

/// The position of the first entry for the device with these ids.
pub open spec fn entry_for<S>(devices: Seq<DeviceConfig<S>>, vendor_id: Option<i64>, product_id: Option<i64>) -> Option<int>
    decreases devices.len(),
{
    if devices.len() == 0 {
        None
    } else {
        match entry_for(devices.drop_last(), vendor_id, product_id) {
            Some(i) => Some(i),
            None => if devices.last().matcher.accepts(vendor_id, product_id) {
                Some(devices.len() - 1)
            } else {
                None
            },
        }
    }
}

/// The entries whose name contains `needle`, ignoring case, in order.
pub open spec fn entries_named<S>(devices: Seq<DeviceConfig<S>>, needle: Seq<char>) -> Seq<DeviceConfig<S>> {
    named_positions(devices, needle).map_values(|i: int| devices[i])
}

/// The positions of the entries whose name contains `needle`, ignoring case.
pub open spec fn named_positions<S>(devices: Seq<DeviceConfig<S>>, needle: Seq<char>) -> Seq<int> {
    containing_positions(lowercased_all(devices.map_values(|d: DeviceConfig<S>| d.name@)), lowercase(needle))
}

/// The names of the entries, in order.
fn entry_names<'a, S>(devices: &'a Vec<DeviceConfig<S>>) -> (v: Vec<&'a str>)
    ensures
        v@.map_values(|t: &str| t@) == devices@.map_values(|d: DeviceConfig<S>| d.name@),
{
    let mut v: Vec<&'a str> = Vec::new();
    let mut i: usize = 0;
    while i < devices.len()
        invariant
            i <= devices.len(),
            v@.len() == i,
            forall|j: int| 0 <= j < i ==> (#[trigger] v@[j])@ == devices@[j].name@,
        decreases devices.len() - i,
    {
        v.push(devices[i].name.as_str());
        i = i + 1;
    }
    assert(v@.map_values(|t: &str| t@) =~= devices@.map_values(|d: DeviceConfig<S>| d.name@));
    v
}

proof fn lemma_entry_for_bounds<S>(devices: Seq<DeviceConfig<S>>, vendor_id: Option<i64>, product_id: Option<i64>)
    ensures
        entry_for(devices, vendor_id, product_id) matches Some(i) ==> 0 <= i < devices.len()
            && devices[i].matcher.accepts(vendor_id, product_id) && forall|j: int|
            0 <= j < i ==> !(#[trigger] devices[j]).matcher.accepts(vendor_id, product_id),
        entry_for(devices, vendor_id, product_id) is None ==> forall|j: int|
            0 <= j < devices.len() ==> !(#[trigger] devices[j]).matcher.accepts(vendor_id, product_id),
    decreases devices.len(),
{
    if devices.len() > 0 {
        let prev = devices.drop_last();
        lemma_entry_for_bounds(prev, vendor_id, product_id);
        assert forall|j: int| 0 <= j < prev.len() implies prev[j] == devices[j] by {}
    }
}

impl<S: Copy> Config<S> {
    /// The settings the configuration gives a device: its entry's, else the
    /// default.
    pub open spec fn settings_of(&self, vendor_id: Option<i64>, product_id: Option<i64>) -> Option<S> {
        match entry_for(self.devices@, vendor_id, product_id) {
            Some(i) => Some(self.devices@[i].settings),
            None => self.default,
        }
    }

    /// The position of the device's entry, if it has one.
    pub fn entry_index(&self, vendor_id: Option<i64>, product_id: Option<i64>) -> (r: Option<usize>)
        ensures
            match r {
                Some(i) => i < self.devices@.len() && entry_for(self.devices@, vendor_id, product_id)
                    == Some(i as int),
                None => entry_for(self.devices@, vendor_id, product_id) is None,
            },
    {
        let mut i: usize = 0;
        while i < self.devices.len()
            invariant
                i <= self.devices.len(),
                entry_for(self.devices@.take(i as int), vendor_id, product_id) is None,
            decreases self.devices.len() - i,
        {
            assert(self.devices@.take(i + 1).drop_last() =~= self.devices@.take(i as int));
            if self.devices[i].matcher.matches(vendor_id, product_id) {
                proof {
                    lemma_entry_for_bounds(self.devices@.take(i as int), vendor_id, product_id);
                    lemma_entry_for_prefix(self.devices@, vendor_id, product_id, i + 1);
                }
                return Some(i);
            }
            i = i + 1;
        }
        assert(self.devices@.take(self.devices.len() as int) =~= self.devices@);
        None
    }

    pub fn settings_for(&self, vendor_id: Option<i64>, product_id: Option<i64>) -> (r: Option<&S>)
        ensures
            match r {
                Some(s) => self.settings_of(vendor_id, product_id) == Some(*s),
                None => self.settings_of(vendor_id, product_id) is None,
            },
    {
        match self.entry_index(vendor_id, product_id) {
            Some(i) => Some(&self.devices[i].settings),
            None => match &self.default {
                Some(d) => Some(d),
                None => None,
            },
        }
    }

    /// Config entries whose name contains `needle`, case-insensitively, in
    /// order. The empty needle finds every entry.
    pub fn find_by_name(&self, needle: &str) -> (r: Vec<&DeviceConfig<S>>)
        ensures
            r@.len() == entries_named(self.devices@, needle@).len(),
            forall|k: int| 0 <= k < r@.len() ==> *r@[k] == entries_named(self.devices@, needle@)[k],
            needle@.len() == 0 ==> r@.len() == self.devices@.len() && forall|k: int|
                0 <= k < r@.len() ==> *r@[k] == self.devices@[k],
    {
        let names = entry_names(&self.devices);
        let lowered = lowercase_each(&names);
        let n = to_lowercase(needle);
        let hits = positions_containing(&lowered, &chars_of(n.as_str()));
        let ghost ps = named_positions(self.devices@, needle@);
        assert(hits@.map_values(|p: usize| p as int) == ps);
        proof {
            if needle@.len() == 0 {
                assert(lowercase(needle@) =~= Seq::<char>::empty());
                lemma_empty_pattern_everywhere(lowercased_all(self.devices@.map_values(|d: DeviceConfig<S>| d.name@)));
            }
        }
        let mut r: Vec<&DeviceConfig<S>> = Vec::new();
        let mut k: usize = 0;
        while k < hits.len()
            invariant
                k <= hits@.len(),
                hits@.map_values(|p: usize| p as int) == ps,
                forall|j: int| 0 <= j < hits@.len() ==> hits@[j] < self.devices@.len(),
                r@.len() == k,
                forall|j: int| 0 <= j < k ==> *(#[trigger] r@[j]) == self.devices@[hits@[j] as int],
            decreases hits.len() - k,
        {
            r.push(&self.devices[hits[k]]);
            k = k + 1;
        }
        assert forall|j: int| 0 <= j < r@.len() implies *r@[j] == entries_named(self.devices@, needle@)[j] by {
            assert(ps[j] == hits@[j] as int);
        }
        r
    }

    /// Update the entry for a device, creating it if needed. A new entry starts
    /// from the config's `default` if there is one, otherwise from `seed`
    /// (normally the device's live values, read only when needed), and then
    /// has `update` applied. An existing entry is updated in place and takes
    /// the device's current name.
    pub fn upsert(
        &mut self,
        vendor_id: Option<i64>,
        product_id: Option<i64>,
        name: &str,
        seed: impl FnOnce() -> S,
        update: impl FnOnce(S) -> S,
    )
        requires
            call_requires(seed, ()),
            forall|s: S| call_requires(update, (s,)),
        ensures
            final(self).default == old(self).default,
            match entry_for(old(self).devices@, vendor_id, product_id) {
                Some(i) => {
                    &&& final(self).devices@.len() == old(self).devices@.len()
                    &&& forall|j: int|
                        0 <= j < old(self).devices@.len() && j != i ==> final(self).devices@[j]
                            == old(self).devices@[j]
                    &&& final(self).devices@[i].matcher == old(self).devices@[i].matcher
                    &&& final(self).devices@[i].name@ == name@
                    &&& call_ensures(
                        update,
                        (old(self).devices@[i].settings,),
                        final(self).devices@[i].settings,
                    )
                },
                None => {
                    let n = old(self).devices@.len() as int;
                    &&& final(self).devices@.len() == n + 1
                    &&& forall|j: int| 0 <= j < n ==> final(self).devices@[j] == old(self).devices@[j]
                    &&& final(self).devices@[n].matcher == (DeviceMatch { vendor_id, product_id })
                    &&& final(self).devices@[n].name@ == name@
                    &&& exists|base: S|
                        {
                            &&& match old(self).default {
                                Some(d) => base == d,
                                None => call_ensures(seed, (), base),
                            }
                            &&& call_ensures(update, (base,), final(self).devices@[n].settings)
                        }
                },
            },
    {
        match self.entry_index(vendor_id, product_id) {
            Some(i) => {
                let current: S = self.devices[i].settings;
                let matcher = self.devices[i].matcher;
                let settings = update(current);
                let entry = DeviceConfig { matcher, name: String::from_str(name), settings };
                self.devices.set(i, entry);
                assert(self.devices@[i as int].settings == settings);
                assert(call_ensures(update, (old(self).devices@[i as int].settings,), settings));
            },
            None => {
                let base: S = match self.default {
                    Some(d) => d,
                    None => seed(),
                };
                let settings = update(base);
                assert(call_ensures(update, (base,), settings));
                self.devices.push(
                    DeviceConfig {
                        matcher: DeviceMatch { vendor_id, product_id },
                        name: String::from_str(name),
                        settings,
                    },
                );
                let ghost n = old(self).devices@.len() as int;
                assert(self.devices@[n].settings == settings);
                assert(match old(self).default {
                    Some(d) => base == d,
                    None => call_ensures(seed, (), base),
                });
            },
        }
    }
}

proof fn lemma_entry_for_prefix<S>(devices: Seq<DeviceConfig<S>>, vendor_id: Option<i64>, product_id: Option<i64>, k: int)
    requires
        0 < k <= devices.len(),
        devices[k - 1].matcher.accepts(vendor_id, product_id),
        entry_for(devices.take(k - 1), vendor_id, product_id) is None,
    ensures
        entry_for(devices, vendor_id, product_id) == Some(k - 1),
    decreases devices.len() - k,
{
    assert(devices.take(k).drop_last() =~= devices.take(k - 1));
    assert(entry_for(devices.take(k), vendor_id, product_id) == Some(k - 1));
    if k < devices.len() {
        lemma_entry_for_prefix_extends(devices, vendor_id, product_id, k);
    } else {
        assert(devices.take(k) =~= devices);
    }
}

proof fn lemma_entry_for_prefix_extends<S>(devices: Seq<DeviceConfig<S>>, vendor_id: Option<i64>, product_id: Option<i64>, k: int)
    requires
        0 <= k <= devices.len(),
        entry_for(devices.take(k), vendor_id, product_id) is Some,
    ensures
        entry_for(devices, vendor_id, product_id) == entry_for(devices.take(k), vendor_id, product_id),
    decreases devices.len() - k,
{
    if k < devices.len() {
        assert(devices.take(k + 1).drop_last() =~= devices.take(k));
        lemma_entry_for_prefix_extends(devices, vendor_id, product_id, k + 1);
    } else {
        assert(devices.take(k) =~= devices);
    }
}

/// After a device's entry is written, the configuration gives that device
/// exactly the settings written, wherever its entry stands; every other
/// device keeps the settings it had.
pub proof fn lemma_written_settings_are_read_back<S: Copy>(
    before: Config<S>,
    after: Config<S>,
    vendor_id: Option<i64>,
    product_id: Option<i64>,
    written: S,
    other_vendor: Option<i64>,
    other_product: Option<i64>,
)
    requires
        after.default == before.default,
        match entry_for(before.devices@, vendor_id, product_id) {
            Some(i) => {
                &&& after.devices@.len() == before.devices@.len()
                &&& forall|j: int|
                    0 <= j < before.devices@.len() && j != i ==> after.devices@[j] == before.devices@[j]
                &&& after.devices@[i].matcher == before.devices@[i].matcher
                &&& after.devices@[i].settings == written
            },
            None => {
                let n = before.devices@.len() as int;
                &&& after.devices@.len() == n + 1
                &&& forall|j: int| 0 <= j < n ==> after.devices@[j] == before.devices@[j]
                &&& after.devices@[n].matcher == (DeviceMatch { vendor_id, product_id })
                &&& after.devices@[n].settings == written
            },
        },
        !(other_vendor == vendor_id && other_product == product_id),
    ensures
        entry_for(after.devices@, vendor_id, product_id) is Some,
        after.settings_of(vendor_id, product_id) == Some(written),
        after.settings_of(other_vendor, other_product) == before.settings_of(
            other_vendor,
            other_product,
        ),
{
    lemma_entry_for_bounds(before.devices@, vendor_id, product_id);
    lemma_entry_for_bounds(before.devices@, other_vendor, other_product);
    lemma_entry_for_bounds(after.devices@, vendor_id, product_id);
    lemma_entry_for_bounds(after.devices@, other_vendor, other_product);
    match entry_for(before.devices@, vendor_id, product_id) {
        Some(i) => {
            lemma_entry_for_unique(after.devices@, vendor_id, product_id, i);
            match entry_for(before.devices@, other_vendor, other_product) {
                Some(o) => {
                    assert(o != i);
                    lemma_entry_for_unique(after.devices@, other_vendor, other_product, o);
                },
                None => {
                    assert forall|j: int| 0 <= j < after.devices@.len() implies !(
                    #[trigger] after.devices@[j]).matcher.accepts(other_vendor, other_product) by {
                        if j != i {
                            assert(after.devices@[j] == before.devices@[j]);
                        }
                    }
                    lemma_entry_for_none(after.devices@, other_vendor, other_product);
                },
            }
        },
        None => {
            let n = before.devices@.len() as int;
            assert forall|j: int| 0 <= j < n implies !(#[trigger] after.devices@[j]).matcher.accepts(
                vendor_id,
                product_id,
            ) by {
                assert(after.devices@[j] == before.devices@[j]);
            }
            lemma_entry_for_unique(after.devices@, vendor_id, product_id, n);
            match entry_for(before.devices@, other_vendor, other_product) {
                Some(o) => {
                    lemma_entry_for_unique(after.devices@, other_vendor, other_product, o);
                },
                None => {
                    assert forall|j: int| 0 <= j < after.devices@.len() implies !(
                    #[trigger] after.devices@[j]).matcher.accepts(other_vendor, other_product) by {
                        if j < n {
                            assert(after.devices@[j] == before.devices@[j]);
                        }
                    }
                    lemma_entry_for_none(after.devices@, other_vendor, other_product);
                },
            }
        },
    }
}

proof fn lemma_entry_for_unique<S>(devices: Seq<DeviceConfig<S>>, vendor_id: Option<i64>, product_id: Option<i64>, i: int)
    requires
        0 <= i < devices.len(),
        devices[i].matcher.accepts(vendor_id, product_id),
        forall|j: int| 0 <= j < i ==> !(#[trigger] devices[j]).matcher.accepts(vendor_id, product_id),
    ensures
        entry_for(devices, vendor_id, product_id) == Some(i),
{
    lemma_entry_for_none(devices.take(i), vendor_id, product_id);
    lemma_entry_for_prefix(devices, vendor_id, product_id, i + 1);
}

proof fn lemma_entry_for_none<S>(devices: Seq<DeviceConfig<S>>, vendor_id: Option<i64>, product_id: Option<i64>)
    requires
        forall|j: int| 0 <= j < devices.len() ==> !(#[trigger] devices[j]).matcher.accepts(vendor_id, product_id),
    ensures
        entry_for(devices, vendor_id, product_id) is None,
    decreases devices.len(),
{
    if devices.len() > 0 {
        let prev = devices.drop_last();
        assert forall|j: int| 0 <= j < prev.len() implies !(#[trigger] prev[j]).matcher.accepts(
            vendor_id,
            product_id,
        ) by {
            assert(prev[j] == devices[j]);
        }
        lemma_entry_for_none(prev, vendor_id, product_id);
        assert(devices[devices.len() - 1] == devices.last());
    }
}

/// Looking a mouse up by name ignores case: needles with the same
/// lower-case form find the same entries.
pub proof fn lemma_name_search_ignores_case<S>(devices: Seq<DeviceConfig<S>>, a: Seq<char>, b: Seq<char>)
    requires
        lowercase(a) == lowercase(b),
    ensures
        entries_named(devices, a) == entries_named(devices, b),
{
}

// ---------------------------------------------------------------------------
// Where the files live
// ---------------------------------------------------------------------------

/// `base` joined with the relative path `part`, as `Path::join` joins on
/// Unix: a separator goes between them unless `base` is empty or already
/// ends with one.
pub open spec fn joined_path(base: Seq<char>, part: Seq<char>) -> Seq<char> {
    if base.len() == 0 {
        part
    } else if base.last() == '/' {
        base + part
    } else {
        base + seq!['/'] + part
    }
}

/// Joins a relative path onto `base`.
pub fn join_path(base: &str, part: &str) -> (p: String)
    ensures
        p@ == joined_path(base@, part@),
{
    let n = base.unicode_len();
    let mut p = String::from_str(base);
    if n > 0 && base.get_char(n - 1) != '/' {
        p.append("/");
        proof {
            reveal_strlit("/");
        }
    }
    p.append(part);
    assert(p@ =~= joined_path(base@, part@));
    p
}

/// The directory that holds the config, the socket and the log, under the
/// home directory `home`.
pub fn support_dir(home: &str) -> (p: String)
    ensures
        p@ == joined_path(home@, "Library/Application Support/mouse-sensitivity"@),
{
    join_path(home, "Library/Application Support/mouse-sensitivity")
}

/// The config file in the support directory.
pub fn config_path(support_dir: &str) -> (p: String)
    ensures
        p@ == joined_path(support_dir@, "config.json"@),
{
    join_path(support_dir, "config.json")
}

/// The daemon's socket in the support directory.
pub fn socket_path(support_dir: &str) -> (p: String)
    ensures
        p@ == joined_path(support_dir@, "daemon.sock"@),
{
    join_path(support_dir, "daemon.sock")
}

/// The daemon's log in the support directory.
pub fn log_path(support_dir: &str) -> (p: String)
    ensures
        p@ == joined_path(support_dir@, "daemon.log"@),
{
    join_path(support_dir, "daemon.log")
}

} // verus!
