use muse_core::DeviceStateManager;

#[test]
fn new_state_is_disconnected_and_stopped() {
    let state = DeviceStateManager::new();
    assert!(!state.is_connected());
    assert!(!state.is_streaming());
    assert!(state.get_device_info().is_none());
    assert!(state.get_device_name().is_none());
    assert!(state.get_device_uuid().is_none());
}

#[test]
fn default_matches_new() {
    let state = DeviceStateManager::default();
    assert!(!state.is_connected());
    assert!(!state.is_streaming());
}

#[test]
fn connect_records_device_identity() {
    let mut state = DeviceStateManager::new();
    state.set_connected("Muse-1234".to_string(), "aa:bb:cc".to_string());
    assert!(state.is_connected());
    assert_eq!(state.get_device_name(), Some("Muse-1234"));
    assert_eq!(state.get_device_uuid(), Some("aa:bb:cc"));
    let info = state.get_device_info().unwrap();
    assert_eq!(info.name, "Muse-1234");
    assert_eq!(info.uuid, "aa:bb:cc");
}

#[test]
fn start_streaming_while_disconnected_fails_and_changes_nothing() {
    let mut state = DeviceStateManager::new();
    let result = state.set_streaming_started();
    assert!(result.is_err());
    assert!(!state.is_streaming());
    assert!(!state.is_connected());
}

#[test]
fn start_streaming_while_connected_succeeds() {
    let mut state = DeviceStateManager::new();
    state.set_connected("Muse".to_string(), "id".to_string());
    assert!(state.set_streaming_started().is_ok());
    assert!(state.is_streaming());
}

#[test]
fn disconnect_while_streaming_stops_streaming() {
    let mut state = DeviceStateManager::new();
    state.set_connected("Muse".to_string(), "id".to_string());
    state.set_streaming_started().unwrap();
    state.set_disconnected();
    assert!(!state.is_connected());
    assert!(!state.is_streaming());
}

#[test]
fn stop_streaming_is_idempotent() {
    let mut state = DeviceStateManager::new();
    state.set_streaming_stopped();
    assert!(!state.is_streaming());
    state.set_connected("Muse".to_string(), "id".to_string());
    state.set_streaming_started().unwrap();
    state.set_streaming_stopped();
    assert!(!state.is_streaming());
    state.set_streaming_stopped();
    assert!(!state.is_streaming());
    assert!(state.is_connected());
}

#[test]
fn can_start_and_can_stop_follow_the_state() {
    let mut state = DeviceStateManager::new();
    assert!(!state.can_start_streaming());
    assert!(!state.can_stop_streaming());
    state.set_connected("Muse".to_string(), "id".to_string());
    assert!(state.can_start_streaming());
    assert!(!state.can_stop_streaming());
    state.set_streaming_started().unwrap();
    assert!(!state.can_start_streaming());
    assert!(state.can_stop_streaming());
    state.set_streaming_stopped();
    assert!(state.can_start_streaming());
}

#[test]
fn reconnect_after_streaming_starts_stopped() {
    let mut state = DeviceStateManager::new();
    state.set_connected("A".to_string(), "1".to_string());
    state.set_streaming_started().unwrap();
    state.set_disconnected();
    state.set_connected("B".to_string(), "2".to_string());
    assert!(!state.is_streaming());
    assert_eq!(state.get_device_name(), Some("B"));
}

#[test]
fn state_summary_texts() {
    let mut state = DeviceStateManager::new();
    assert_eq!(state.get_state_summary(), "Disconnected, Streaming: false");
    state.set_connected("Muse-1234".to_string(), "aa:bb:cc".to_string());
    assert_eq!(
        state.get_state_summary(),
        "Connected to Muse-1234 (aa:bb:cc), Streaming: false"
    );
    state.set_streaming_started().unwrap();
    assert_eq!(
        state.get_state_summary(),
        "Connected to Muse-1234 (aa:bb:cc), Streaming: true"
    );
}
