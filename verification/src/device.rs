//! Which attached device is the monitor, and what is known of it.

use vstd::prelude::*;

verus! {

/// The USB vendor identifier of the monitor.
pub const CO2MON_HID_VENDOR_ID: u16 = 0x04d9;

/// The USB product identifier of the monitor.
pub const CO2MON_HID_PRODUCT_ID: u16 = 0xa052;

/// What the system reports about the monitor.
#[derive(Debug, Clone)]
pub struct CO2MonitorInfo {
    pub vendor_id: u16,
    pub product_id: u16,
    pub path: String,
    pub manufacturer: String,
    pub product_name: String,
    pub serial_no: String,
}

/// An attached device, as far as the choice among devices looks at it.
#[derive(Debug, Clone)]
pub struct Candidate {
    pub vendor_id: u16,
    pub product_id: u16,
    /// The interface path, or `None` where it is not valid text.
    pub path: Option<String>,
}

/// The text that stands for an attribute: the attribute itself, or the
/// fallback where the device gives none.
pub open spec fn text_or(text: Option<String>, fallback: Seq<char>) -> Seq<char> {
    match text {
        Some(given) => given@,
        None => fallback,
    }
}

impl Candidate {
    /// Whether the device has the monitor's vendor and product identifiers.
    pub open spec fn is_monitor(self) -> bool {
        self.vendor_id == CO2MON_HID_VENDOR_ID && self.product_id == CO2MON_HID_PRODUCT_ID
    }

    /// Whether the device is a monitor at the wanted path. Without a wanted
    /// path every monitor is.
    pub open spec fn is_wanted(self, interface_path: Option<String>) -> bool {
        self.is_monitor() && match interface_path {
            None => true,
            Some(wanted) => self.path matches Some(path) && path@ == wanted@,
        }
    }
}

/// Whether the path of the device at `i` is readable if the search gets to
/// compare it: a path is asked for, the device is a monitor and no device
/// before it was chosen.
pub open spec fn path_readable_when_compared(
    devices: Seq<Candidate>,
    interface_path: Option<String>,
    i: int,
) -> bool {
    (interface_path.is_some() && devices[i].is_monitor() && forall|j: int|
        0 <= j < i ==> !(#[trigger] devices[j]).is_wanted(interface_path))
        ==> devices[i].path.is_some()
}

/// The position of the first attached device that is a monitor and, where a
/// path is given, has that path.
pub fn find_device(devices: &Vec<Candidate>, interface_path: &Option<String>) -> (found: Option<
    usize,
>)
    requires
        forall|i: int|
            0 <= i < devices@.len() ==> #[trigger] path_readable_when_compared(
                devices@,
                *interface_path,
                i,
            ),
    ensures
        match found {
            Some(at) => at < devices@.len() && devices@[at as int].is_wanted(*interface_path)
                && forall|j: int| 0 <= j < at ==> !(#[trigger] devices@[j]).is_wanted(*interface_path),
            None => forall|j: int|
                0 <= j < devices@.len() ==> !(#[trigger] devices@[j]).is_wanted(*interface_path),
        },
{
    let mut i: usize = 0;
    while i < devices.len()
        invariant
            i <= devices@.len(),
            forall|j: int| 0 <= j < i ==> !(#[trigger] devices@[j]).is_wanted(*interface_path),
            forall|k: int|
                0 <= k < devices@.len() ==> #[trigger] path_readable_when_compared(
                    devices@,
                    *interface_path,
                    k,
                ),
        decreases devices@.len() - i,
    {
        let device = &devices[i];
        if device.vendor_id == CO2MON_HID_VENDOR_ID && device.product_id == CO2MON_HID_PRODUCT_ID {
            match interface_path {
                None => {
                    return Some(i);
                },
                Some(wanted) => {
                    assert(path_readable_when_compared(devices@, *interface_path, i as int));
                    match &device.path {
                        Some(path) => {
                            if *path == *wanted {
                                return Some(i);
                            }
                        },
                        None => {},
                    }
                },
            }
        }
        i += 1;
    }
    None
}

/// The attribute as text of its own, or the fallback where there is none.
fn owned_or(text: Option<String>, fallback: &str) -> (out: String)
    ensures
        out@ == text_or(text, fallback@),
{
    match text {
        Some(given) => given,
        None => fallback.to_owned(),
    }
}

impl CO2MonitorInfo {
    /// Puts together what is known of a device. An unreadable path is shown
    /// as `Error`, another attribute that the device does not give as
    /// `None provided`.
    pub fn assemble(
        vendor_id: u16,
        product_id: u16,
        path: Option<String>,
        manufacturer: Option<String>,
        product_name: Option<String>,
        serial_no: Option<String>,
    ) -> (info: CO2MonitorInfo)
        ensures
            info.vendor_id == vendor_id,
            info.product_id == product_id,
            info.path@ == text_or(path, "Error"@),
            info.manufacturer@ == text_or(manufacturer, "None provided"@),
            info.product_name@ == text_or(product_name, "None provided"@),
            info.serial_no@ == text_or(serial_no, "None provided"@),
    {
        CO2MonitorInfo {
            vendor_id,
            product_id,
            path: owned_or(path, "Error"),
            manufacturer: owned_or(manufacturer, "None provided"),
            product_name: owned_or(product_name, "None provided"),
            serial_no: owned_or(serial_no, "None provided"),
        }
    }
}

} // verus!
