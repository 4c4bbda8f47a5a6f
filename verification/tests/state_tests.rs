use std::collections::BTreeMap;

use bleah::{AppState, DeviceInfo, ScanMessage};

fn device(id: &str, name: &str) -> DeviceInfo {
    DeviceInfo {
        id: id.to_string(),
        name: name.to_string(),
        rssi: None,
        connected: false,
        tx_power_level: None,
        address_type: None,
        manufacturer_data: BTreeMap::new(),
        service_data: BTreeMap::new(),
        services: Vec::new(),
    }
}

#[test]
fn new_state_is_empty() {
    let state = AppState::new();
    assert!(state.devices.is_empty());
    assert_eq!(state.status, "Starting scan...");
    assert_eq!(state.selected, None);
    assert_eq!(state.selected_id, None);
}

#[test]
fn apply_sorts_by_name_then_id() {
    let mut state = AppState::new();
    let batch = vec![
        device("cc", "beta"),
        device("aa", "beta"),
        device("bb", "alpha"),
        device("dd", "gamma"),
    ];
    state.apply(ScanMessage::Devices(batch));
    let order: Vec<(&str, &str)> = state
        .devices
        .iter()
        .map(|d| (d.name.as_str(), d.id.as_str()))
        .collect();
    assert_eq!(
        order,
        vec![("alpha", "bb"), ("beta", "aa"), ("beta", "cc"), ("gamma", "dd")]
    );
    assert_eq!(state.status, "Scanning...");
}

#[test]
fn apply_sorting_is_case_sensitive_by_code_point() {
    let mut state = AppState::new();
    let batch = vec![device("1", "apple"), device("2", "Banana"), device("3", "Apple")];
    state.apply(ScanMessage::Devices(batch));
    let names: Vec<&str> = state.devices.iter().map(|d| d.name.as_str()).collect();
    assert_eq!(names, vec!["Apple", "Banana", "apple"]);
}

#[test]
fn first_snapshot_selects_top() {
    let mut state = AppState::new();
    state.apply(ScanMessage::Devices(vec![device("b", "b"), device("a", "a")]));
    assert_eq!(state.selected, Some(0));
    assert_eq!(state.selected_id.as_deref(), Some("a"));
}

#[test]
fn selection_follows_id_across_snapshots() {
    let mut state = AppState::new();
    state.apply(ScanMessage::Devices(vec![device("x", "mmm"), device("y", "nnn")]));
    state.select_next();
    assert_eq!(state.selected_id.as_deref(), Some("y"));

    // The next snapshot shifts y by renaming others around it.
    state.apply(ScanMessage::Devices(vec![
        device("y", "nnn"),
        device("x", "zzz"),
        device("w", "aaa"),
    ]));
    let idx = state.selected.unwrap();
    assert_eq!(state.devices[idx].id, "y");
    assert_eq!(state.selected_id.as_deref(), Some("y"));
    assert_eq!(idx, 1);
}

#[test]
fn selection_falls_back_to_top_when_id_disappears() {
    let mut state = AppState::new();
    state.apply(ScanMessage::Devices(vec![device("x", "mmm"), device("y", "nnn")]));
    state.select_next();
    assert_eq!(state.selected_id.as_deref(), Some("y"));

    state.apply(ScanMessage::Devices(vec![device("q", "qqq"), device("p", "ppp")]));
    assert_eq!(state.selected, Some(0));
    assert_eq!(state.selected_id.as_deref(), Some("p"));
}

#[test]
fn selection_clears_on_empty_snapshot() {
    let mut state = AppState::new();
    state.apply(ScanMessage::Devices(vec![device("x", "mmm")]));
    assert_eq!(state.selected, Some(0));

    state.apply(ScanMessage::Devices(Vec::new()));
    assert_eq!(state.selected, None);
    assert_eq!(state.selected_id, None);
}

#[test]
fn select_next_wraps_to_first() {
    let mut state = AppState::new();
    state.apply(ScanMessage::Devices(vec![device("a", "a"), device("b", "b")]));
    state.select_next();
    assert_eq!(state.selected, Some(1));
    state.select_next();
    assert_eq!(state.selected, Some(0));
}

#[test]
fn select_previous_wraps_to_last() {
    let mut state = AppState::new();
    state.apply(ScanMessage::Devices(vec![device("a", "a"), device("b", "b")]));
    assert_eq!(state.selected, Some(0));
    state.select_previous();
    assert_eq!(state.selected, Some(1));
    state.select_previous();
    assert_eq!(state.selected, Some(0));
}

#[test]
fn movement_on_empty_list_clears_selection() {
    let mut state = AppState::new();
    state.select_next();
    assert_eq!(state.selected, None);
    assert_eq!(state.selected_id, None);
    state.select_previous();
    assert_eq!(state.selected, None);
    assert_eq!(state.selected_id, None);
}

#[test]
fn status_message_replaces_status_only() {
    let mut state = AppState::new();
    state.apply(ScanMessage::Devices(vec![device("a", "a"), device("b", "b")]));
    state.select_next();
    state.apply(ScanMessage::Status("Scan error: oops".to_string()));
    assert_eq!(state.status, "Scan error: oops");
    assert_eq!(state.devices.len(), 2);
    assert_eq!(state.selected, Some(1));
    assert_eq!(state.selected_id.as_deref(), Some("b"));
}

#[test]
fn selected_device_returns_selected_entry() {
    let mut state = AppState::new();
    assert!(state.selected_device().is_none());
    state.apply(ScanMessage::Devices(vec![device("a", "a"), device("b", "b")]));
    state.select_next();
    assert_eq!(state.selected_device().unwrap().id, "b");
}
