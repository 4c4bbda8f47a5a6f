//! The scan coordinator's pure half: translating one polled peripheral
//! into a device entry, and phrasing the status messages the poll loop
//! emits. The loop itself — timers, the adapter calls and the channel —
//! lives outside the library and hands plain values in and out.

use vstd::prelude::*;

verus! {

use std::collections::BTreeMap;
use vstd::string::StringExecFns;
use crate::device::AddressKind;
use crate::device::DeviceInfo;
use crate::state::ScanMessage;

/// One polled peripheral as a device entry: every absent field stays
/// absent, and an absent name becomes the placeholder.
pub fn device_from_parts(
    id: String,
    name: Option<String>,
    rssi: Option<i16>,
    connected: bool,
    tx_power_level: Option<i16>,
    address_type: Option<AddressKind>,
    manufacturer_data: BTreeMap<u16, Vec<u8>>,
    service_data: BTreeMap<String, Vec<u8>>,
    services: Vec<String>,
) -> (r: DeviceInfo)
    ensures
        r.id == id,
        r.name@ == match name {
            Some(n) => n@,
            None => "Unknown"@,
        },
        r.rssi == rssi,
        r.connected == connected,
        r.tx_power_level == tx_power_level,
        r.address_type == address_type,
        r.manufacturer_data == manufacturer_data,
        r.service_data == service_data,
        r.services == services,
{
    let shown_name = match name {
        Some(n) => n,
        None => "Unknown".to_owned(),
    };
    DeviceInfo {
        id,
        name: shown_name,
        rssi,
        connected,
        tx_power_level,
        address_type,
        manufacturer_data,
        service_data,
        services,
    }
}

/// The one fatal setup report when no manager handle could be acquired.
pub fn manager_error_message(cause: &str) -> (r: ScanMessage)
    ensures
        r matches ScanMessage::Status(s) && s@ == "BLE manager error: "@ + cause@,
{
    let mut s = "BLE manager error: ".to_owned();
    s.append(cause);
    ScanMessage::Status(s)
}

/// The one fatal setup report when adapters could not be enumerated.
pub fn adapter_error_message(cause: &str) -> (r: ScanMessage)
    ensures
        r matches ScanMessage::Status(s) && s@ == "Adapter discovery error: "@ + cause@,
{
    let mut s = "Adapter discovery error: ".to_owned();
    s.append(cause);
    ScanMessage::Status(s)
}

/// The one fatal setup report when no adapter exists.
pub fn no_adapters_message() -> (r: ScanMessage)
    ensures
        r matches ScanMessage::Status(s) && s@ == "No BLE adapters found"@,
{
    ScanMessage::Status("No BLE adapters found".to_owned())
}

/// The one fatal setup report when the scan would not start.
pub fn scan_start_error_message(cause: &str) -> (r: ScanMessage)
    ensures
        r matches ScanMessage::Status(s) && s@ == "Scan failed: "@ + cause@,
{
    let mut s = "Scan failed: ".to_owned();
    s.append(cause);
    ScanMessage::Status(s)
}

/// The per-cycle report when one snapshot fetch fails; the loop then
/// continues with the next cycle.
pub fn poll_error_message(cause: &str) -> (r: ScanMessage)
    ensures
        r matches ScanMessage::Status(s) && s@ == "Scan error: "@ + cause@,
{
    let mut s = "Scan error: ".to_owned();
    s.append(cause);
    ScanMessage::Status(s)
}

} // verus!
