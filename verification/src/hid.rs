//! Pointer devices as the HID event system reports them, and which of them
//! the tool manages.

use vstd::prelude::*;
use vstd::string::*;

use crate::text::{contains_text, lowercase, lowercase_contains, same_text};

verus! {

/// What can go wrong talking to the HID event system.
#[derive(Debug, Clone, PartialEq, Eq)]
pub enum HidError {
    ClientCreationFailed,
    NoDevicesFound,
    PropertySetFailed(String),
}

/// The message for each error.
pub open spec fn hid_error_text(e: HidError) -> Seq<char> {
    match e {
        HidError::ClientCreationFailed => "Failed to create HID event system client"@,
        HidError::NoDevicesFound => "No mouse devices found"@,
        HidError::PropertySetFailed(key) => "Failed to set property: "@ + key@,
    }
}

impl HidError {
    /// The message shown to the user.
    pub fn message(&self) -> (s: String)
        ensures
            s@ == hid_error_text(*self),
    {
        match self {
            HidError::ClientCreationFailed => String::from_str("Failed to create HID event system client"),
            HidError::NoDevicesFound => String::from_str("No mouse devices found"),
            HidError::PropertySetFailed(key) => {
                let mut s = String::from_str("Failed to set property: ");
                s.append(key.as_str());
                s
            },
        }
    }
}

/// A connected HID pointer device (mouse or trackpad), as identified by
/// the properties the event system reports for it.
#[derive(Debug, Clone, PartialEq, Eq)]
pub struct PointerDevice {
    pub name: String,
    pub vendor_id: Option<i64>,
    pub product_id: Option<i64>,
}

/// The device is not a mouse: a trackpad, a keyboard, or anything on the
/// SPI transport that built-in trackpads use and mice never do.
pub open spec fn excluded(name: Seq<char>, transport: Option<Seq<char>>) -> bool {
    ||| contains_text(lowercase(name), "trackpad"@)
    ||| contains_text(lowercase(name), "keyboard"@)
    ||| transport == Some("SPI"@)
}

/// Trackpads and keyboards are never mice, by name, whatever their
/// transport, and neither is anything on SPI; every other device is one.
pub proof fn lemma_trackpads_keyboards_and_spi_are_excluded(name: Seq<char>, transport: Option<Seq<char>>)
    ensures
        contains_text(lowercase(name), "keyboard"@) ==> excluded(name, transport),
        contains_text(lowercase(name), "trackpad"@) ==> excluded(name, transport),
        transport == Some("SPI"@) ==> excluded(name, transport),
        !contains_text(lowercase(name), "keyboard"@) && !contains_text(lowercase(name), "trackpad"@)
            && transport != Some("SPI"@) ==> !excluded(name, transport),
{
}

/// Check if a device should be excluded (trackpads, keyboards, etc.), from
/// its product name and its `Transport` property.
pub fn is_excluded_device(name: &str, transport: Option<&str>) -> (r: bool)
    ensures
        r == excluded(
            name@,
            match transport {
                Some(t) => Some(t@),
                None => None,
            },
        ),
{
    // Exclude trackpads
    if lowercase_contains(name, "trackpad") {
        return true;
    }
    // Exclude keyboards (e.g., "Apple Internal Keyboard / Trackpad" composite devices)
    if lowercase_contains(name, "keyboard") {
        return true;
    }
    // Built-in trackpads use SPI transport; mice never do
    match transport {
        Some(t) => same_text(t, "SPI"),
        None => false,
    }
}

/// The name shown for a device that reports no product name.
pub open spec fn device_name(product: Option<Seq<char>>) -> Seq<char> {
    match product {
        Some(p) => p,
        None => "Unknown Device"@,
    }
}

/// The device the tool manages for one HID service, from the service's
/// `Product`, `Transport`, `VendorID` and `ProductID` properties; `None` for
/// a service that is not a mouse.
pub fn device_from_properties(
    product: Option<String>,
    transport: Option<String>,
    vendor_id: Option<i64>,
    product_id: Option<i64>,
) -> (r: Option<PointerDevice>)
    ensures
        ({
            let name = device_name(
                match product {
                    Some(p) => Some(p@),
                    None => None,
                },
            );
            let t = match transport {
                Some(t) => Some(t@),
                None => None,
            };
            match r {
                Some(d) => !excluded(name, t) && d.name@ == name && d.vendor_id == vendor_id
                    && d.product_id == product_id,
                None => excluded(name, t),
            }
        }),
{
    let name = match product {
        Some(p) => p,
        None => String::from_str("Unknown Device"),
    };
    let excluded = match &transport {
        Some(t) => is_excluded_device(name.as_str(), Some(t.as_str())),
        None => is_excluded_device(name.as_str(), None),
    };
    if excluded {
        None
    } else {
        Some(PointerDevice { name, vendor_id, product_id })
    }
}

/// The properties of one HID service that decide whether it is a mouse:
/// `Product`, `Transport`, `VendorID` and `ProductID`.
pub struct ServiceProperties {
    pub product: Option<String>,
    pub transport: Option<String>,
    pub vendor_id: Option<i64>,
    pub product_id: Option<i64>,
}

/// The name a service's device is shown by.
pub open spec fn service_name(s: ServiceProperties) -> Seq<char> {
    device_name(
        match s.product {
            Some(p) => Some(p@),
            None => None,
        },
    )
}

/// A service's transport, as text.
pub open spec fn service_transport(s: ServiceProperties) -> Option<Seq<char>> {
    match s.transport {
        Some(t) => Some(t@),
        None => None,
    }
}

/// The positions, in order, of the services that are mice.
pub open spec fn mouse_positions(services: Seq<ServiceProperties>) -> Seq<int>
    decreases services.len(),
{
    if services.len() == 0 {
        Seq::empty()
    } else {
        let prev = mouse_positions(services.drop_last());
        if excluded(service_name(services.last()), service_transport(services.last())) {
            prev
        } else {
            prev.push(services.len() - 1)
        }
    }
}

fn copy_text(t: &Option<String>) -> (r: Option<String>)
    ensures
        r == *t,
{
    match t {
        Some(s) => Some(s.clone()),
        None => None,
    }
}

/// The mice among the HID services the system reports, in order, each with
/// the position of its service. No service at all is `NoDevicesFound`; a
/// list of services none of which is a mouse is an empty list.
pub fn devices_from_services(services: &Vec<ServiceProperties>) -> (r: Result<Vec<(usize, PointerDevice)>, HidError>)
    ensures
        services@.len() == 0 <==> r matches Err(HidError::NoDevicesFound),
        r is Err ==> services@.len() == 0,
        r matches Ok(v) ==> ({
            let ps = mouse_positions(services@);
            &&& v@.len() == ps.len()
            &&& forall|k: int|
                0 <= k < v@.len() ==> {
                    let (i, d) = #[trigger] v@[k];
                    &&& i as int == ps[k]
                    &&& d.name@ == service_name(services@[i as int])
                    &&& d.vendor_id == services@[i as int].vendor_id
                    &&& d.product_id == services@[i as int].product_id
                }
        }),
{
    if services.len() == 0 {
        return Err(HidError::NoDevicesFound);
    }
    let mut v: Vec<(usize, PointerDevice)> = Vec::new();
    let mut i: usize = 0;
    while i < services.len()
        invariant
            i <= services.len(),
            ({
                let ps = mouse_positions(services@.take(i as int));
                &&& v@.len() == ps.len()
                &&& forall|k: int|
                    0 <= k < v@.len() ==> {
                        let (j, d) = #[trigger] v@[k];
                        &&& j as int == ps[k]
                        &&& d.name@ == service_name(services@[j as int])
                        &&& d.vendor_id == services@[j as int].vendor_id
                        &&& d.product_id == services@[j as int].product_id
                    }
            }),
        decreases services.len() - i,
    {
        let s = &services[i];
        assert(services@.take(i + 1).drop_last() =~= services@.take(i as int));
        assert(services@.take(i + 1).last() == *s);
        let found = device_from_properties(copy_text(&s.product), copy_text(&s.transport), s.vendor_id, s.product_id);
        if let Some(d) = found {
            v.push((i, d));
        }
        i = i + 1;
    }
    assert(services@.take(services.len() as int) =~= services@);
    Ok(v)
}

} // verus!
