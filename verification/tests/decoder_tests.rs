use std::collections::BTreeMap;

use bleah::{
    decoded_details, default_decoders, device_summary, DeviceInfo, PeripheralDecoder, RuuviDecoder,
};

fn device_with_manufacturer_data(entries: Vec<(u16, Vec<u8>)>) -> DeviceInfo {
    let mut manufacturer_data = BTreeMap::new();
    for (key, value) in entries {
        manufacturer_data.insert(key, value);
    }
    DeviceInfo {
        id: "aa:bb".to_string(),
        name: "tag".to_string(),
        rssi: Some(-60),
        connected: false,
        tx_power_level: None,
        address_type: None,
        manufacturer_data,
        service_data: BTreeMap::new(),
        services: Vec::new(),
    }
}

#[test]
fn decode_format5_reads_raw_fields() {
    let r = RuuviDecoder::decode_format5(&[0x05, 0x01, 0x90, 0x27, 0x10]);
    assert_eq!(r, Some((Some(400), Some(10000))));
}

#[test]
fn decode_format5_rejects_short_or_untagged_payloads() {
    assert_eq!(RuuviDecoder::decode_format5(&[0x05, 0x01, 0x90, 0x27]), None);
    assert_eq!(RuuviDecoder::decode_format5(&[0x03, 0x01, 0x90, 0x27, 0x10]), None);
    assert_eq!(RuuviDecoder::decode_format5(&[]), None);
}

#[test]
fn decode_format5_maps_sentinels_to_undefined() {
    let r = RuuviDecoder::decode_format5(&[0x05, 0x80, 0x00, 0xff, 0xff]);
    assert_eq!(r, Some((None, None)));
}

#[test]
fn decode_format5_reads_negative_temperature() {
    // 0xff38 as a signed big-endian 16-bit integer is -200.
    let r = RuuviDecoder::decode_format5(&[0x05, 0xff, 0x38, 0x00, 0x00]);
    assert_eq!(r, Some((Some(-200), Some(0))));
}

#[test]
fn ruuvi_summary_formats_both_fields() {
    let d = device_with_manufacturer_data(vec![(0x0499, vec![0x05, 0x01, 0x90, 0x27, 0x10])]);
    assert_eq!(RuuviDecoder.summary(&d), Some("2.0 C 25.0%".to_string()));
}

#[test]
fn ruuvi_details_formats_both_fields() {
    let d = device_with_manufacturer_data(vec![(0x0499, vec![0x05, 0x01, 0x90, 0x27, 0x10])]);
    let items = RuuviDecoder.details(&d);
    assert_eq!(items.len(), 2);
    assert_eq!(items[0].label, "Ruuvi temperature");
    assert_eq!(items[0].value, "2.0 C");
    assert_eq!(items[1].label, "Ruuvi humidity");
    assert_eq!(items[1].value, "25.0%");
}

#[test]
fn ruuvi_sentinels_yield_nothing() {
    let d = device_with_manufacturer_data(vec![(0x0499, vec![0x05, 0x80, 0x00, 0xff, 0xff])]);
    assert_eq!(RuuviDecoder.summary(&d), None);
    assert!(RuuviDecoder.details(&d).is_empty());
}

#[test]
fn ruuvi_temperature_alone() {
    let d = device_with_manufacturer_data(vec![(0x0499, vec![0x05, 0x01, 0x90, 0xff, 0xff])]);
    assert_eq!(RuuviDecoder.summary(&d), Some("2.0 C".to_string()));
    let items = RuuviDecoder.details(&d);
    assert_eq!(items.len(), 1);
    assert_eq!(items[0].label, "Ruuvi temperature");
    assert_eq!(items[0].value, "2.0 C");
}

#[test]
fn ruuvi_humidity_alone() {
    let d = device_with_manufacturer_data(vec![(0x0499, vec![0x05, 0x80, 0x00, 0x27, 0x10])]);
    assert_eq!(RuuviDecoder.summary(&d), Some("25.0%".to_string()));
    let items = RuuviDecoder.details(&d);
    assert_eq!(items.len(), 1);
    assert_eq!(items[0].label, "Ruuvi humidity");
    assert_eq!(items[0].value, "25.0%");
}

#[test]
fn ruuvi_negative_temperature_renders_with_sign() {
    let d = device_with_manufacturer_data(vec![(0x0499, vec![0x05, 0xff, 0x38, 0xff, 0xff])]);
    assert_eq!(RuuviDecoder.summary(&d), Some("-1.0 C".to_string()));
}

#[test]
fn ruuvi_not_applicable_without_company_entry() {
    let d = device_with_manufacturer_data(vec![(0x004c, vec![0x05, 0x01, 0x90, 0x27, 0x10])]);
    assert_eq!(RuuviDecoder.summary(&d), None);
    assert!(RuuviDecoder.details(&d).is_empty());
}

#[test]
fn ruuvi_not_applicable_on_short_payload() {
    let d = device_with_manufacturer_data(vec![(0x0499, vec![0x05, 0x01, 0x90, 0x27])]);
    assert_eq!(RuuviDecoder.summary(&d), None);
    assert!(RuuviDecoder.details(&d).is_empty());
}

#[test]
fn ruuvi_not_applicable_on_wrong_format_tag() {
    let d = device_with_manufacturer_data(vec![(0x0499, vec![0x03, 0x01, 0x90, 0x27, 0x10])]);
    assert_eq!(RuuviDecoder.summary(&d), None);
    assert!(RuuviDecoder.details(&d).is_empty());
}

#[test]
fn registry_summary_returns_first_finding() {
    let decoders = default_decoders();
    let d = device_with_manufacturer_data(vec![(0x0499, vec![0x05, 0x01, 0x90, 0x27, 0x10])]);
    assert_eq!(device_summary(&decoders, &d), Some("2.0 C 25.0%".to_string()));
    let blank = device_with_manufacturer_data(Vec::new());
    assert_eq!(device_summary(&decoders, &blank), None);
}

#[test]
fn registry_details_concatenate_in_registration_order() {
    // Two registered decoders: the composed output is each decoder's
    // items in turn, so its length is the sum of the individual counts.
    let decoders = vec![RuuviDecoder, RuuviDecoder];
    let d = device_with_manufacturer_data(vec![(0x0499, vec![0x05, 0x01, 0x90, 0x27, 0x10])]);
    let one = RuuviDecoder.details(&d);
    let all = decoded_details(&decoders, &d);
    assert_eq!(all.len(), one.len() * 2);
    assert_eq!(all[0].label, "Ruuvi temperature");
    assert_eq!(all[1].label, "Ruuvi humidity");
    assert_eq!(all[2].label, "Ruuvi temperature");
    assert_eq!(all[3].label, "Ruuvi humidity");
}

#[test]
fn default_registry_has_one_decoder() {
    let decoders = default_decoders();
    assert_eq!(decoders.len(), 1);
}
