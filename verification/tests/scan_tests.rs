use std::collections::BTreeMap;

use bleah::scan::{
    adapter_error_message, manager_error_message, no_adapters_message, poll_error_message,
    scan_start_error_message,
};
use bleah::{device_from_parts, hex_bytes, AddressKind, ScanMessage};

fn status_text(msg: ScanMessage) -> String {
    match msg {
        ScanMessage::Status(s) => s,
        ScanMessage::Devices(_) => panic!("expected a status message"),
    }
}

#[test]
fn device_from_parts_defaults_missing_name() {
    let d = device_from_parts(
        "aa:bb".to_string(),
        None,
        None,
        false,
        None,
        None,
        BTreeMap::new(),
        BTreeMap::new(),
        Vec::new(),
    );
    assert_eq!(d.name, "Unknown");
    assert_eq!(d.id, "aa:bb");
    assert_eq!(d.rssi, None);
    assert!(!d.connected);
}

#[test]
fn device_from_parts_keeps_reported_fields() {
    let mut manufacturer_data = BTreeMap::new();
    manufacturer_data.insert(0x0499u16, vec![0x05u8]);
    let mut service_data = BTreeMap::new();
    service_data.insert("180f".to_string(), vec![0x64u8]);
    let d = device_from_parts(
        "aa:bb".to_string(),
        Some("Sensor".to_string()),
        Some(-42),
        true,
        Some(4),
        Some(AddressKind::Random),
        manufacturer_data,
        service_data,
        vec!["180f".to_string()],
    );
    assert_eq!(d.name, "Sensor");
    assert_eq!(d.rssi, Some(-42));
    assert!(d.connected);
    assert_eq!(d.tx_power_level, Some(4));
    assert_eq!(d.address_type, Some(AddressKind::Random));
    assert_eq!(d.manufacturer_data.get(&0x0499), Some(&vec![0x05u8]));
    assert_eq!(d.service_data.get("180f"), Some(&vec![0x64u8]));
    assert_eq!(d.services, vec!["180f".to_string()]);
}

#[test]
fn setup_and_poll_messages_carry_their_causes() {
    assert_eq!(
        status_text(manager_error_message("no bus")),
        "BLE manager error: no bus"
    );
    assert_eq!(
        status_text(adapter_error_message("timed out")),
        "Adapter discovery error: timed out"
    );
    assert_eq!(status_text(no_adapters_message()), "No BLE adapters found");
    assert_eq!(
        status_text(scan_start_error_message("busy")),
        "Scan failed: busy"
    );
    assert_eq!(status_text(poll_error_message("io")), "Scan error: io");
}

#[test]
fn hex_bytes_renders_spaced_pairs() {
    assert_eq!(hex_bytes(&[0x00, 0xff, 0x10, 0x0a]), "00 ff 10 0a");
    assert_eq!(hex_bytes(&[0xab]), "ab");
    assert_eq!(hex_bytes(&[]), "");
}
