use msu2_display::flasher::app_state::{AppState, SessionPhase, UiDeviceStatus};

#[test]
fn ready_snapshot_enables_flash_button() {
    let mut state = AppState::default();
    state.set_ready("COM4".to_string(), Some("1A86:FE0C".to_string()), Some("0123456789".to_string()));
    let snapshot = state.snapshot();
    assert_eq!(snapshot.phase, SessionPhase::Ready);
    assert_eq!(snapshot.port_name.as_deref(), Some("COM4"));
    assert_eq!(snapshot.vid_pid.as_deref(), Some("1A86:FE0C"));
    assert_eq!(snapshot.serial.as_deref(), Some("0123456789"));
    assert!(snapshot.button_enabled);
    assert_eq!(UiDeviceStatus::from(snapshot).kind, "Ready");
}

#[test]
fn flashing_snapshot_disables_flash_button() {
    let mut state = AppState::default();
    state.set_flashing("COM4".to_string(), Some("1A86:FE0C".to_string()), Some("0123456789".to_string()));
    let snapshot = state.snapshot();
    assert_eq!(snapshot.phase, SessionPhase::Flashing);
    assert_eq!(snapshot.port_name.as_deref(), Some("COM4"));
    assert!(!snapshot.button_enabled);
    assert_eq!(UiDeviceStatus::from(snapshot).kind, "Flashing");
}

#[test]
fn done_snapshot_allows_reflash() {
    let mut state = AppState::default();
    state.set_done("COM4".to_string(), Some("1A86:FE0C".to_string()), Some("0123456789".to_string()));
    let snapshot = state.snapshot();
    assert_eq!(snapshot.phase, SessionPhase::Done);
    assert!(snapshot.button_enabled);
    assert_eq!(UiDeviceStatus::from(snapshot).kind, "Done");
}

#[test]
fn clear_device_stops_selected_port() {
    let mut state = AppState::default();
    state.set_ready("COM4".to_string(), Some("1A86:FE0C".to_string()), Some("0123456789".to_string()));
    state.clear_device();
    let snapshot = state.snapshot();
    assert_eq!(snapshot.phase, SessionPhase::NoDevice);
    assert_eq!(snapshot.port_name, None);
    assert_eq!(state.selected_port(), None);
    assert!(!snapshot.button_enabled);
}

#[test]
fn app_state_ready_status_uses_short_user_text() {
    let status = UiDeviceStatus::ready("COM4", "1A86:FE0C", "0123456789");
    assert_eq!(status.kind, "Ready");
    assert_eq!(status.title, "准备就绪");
    assert_eq!(status.port_name.as_deref(), Some("COM4"));

    let status = msu2_display::basic_flasher::app_state::UiDeviceStatus::ready("COM4", "1A86:FE0C", "0123456789");
    assert_eq!(status.kind, "Ready");
    assert_eq!(status.title, "准备就绪");
    assert_eq!(status.port_name.as_deref(), Some("COM4"));
}

#[test]
fn app_state_copied_log_contains_detail_but_ui_line_stays_short() {
    let mut state = AppState::default();
    state.push_log("设备就绪", "Handshake reply: 00 4D 53 4E 43 4E");
    assert_eq!(state.last_user_log().unwrap(), "设备就绪");
    assert!(state.copy_log().contains("Handshake reply"));

    let mut basic = msu2_display::basic_flasher::app_state::AppState::default();
    basic.push_log("设备就绪", "Handshake reply: 00 4D 53 4E 43 4E");
    assert_eq!(basic.last_user_log().unwrap(), "设备就绪");
    assert!(basic.copy_log().contains("Handshake reply"));
}

#[test]
fn ready_status_trims_ids_and_drops_blank_ones() {
    let status = UiDeviceStatus::ready("COM4", "  1A86:FE0C \n", "   ");
    assert_eq!(status.vid_pid.as_deref(), Some("1A86:FE0C"));
    assert_eq!(status.serial, None);
    assert_eq!(UiDeviceStatus::no_device().kind, "NoDevice");
    assert_eq!(UiDeviceStatus::no_device().title, "未连接");
}

#[test]
fn log_keeps_the_latest_five_hundred_entries() {
    let mut state = AppState::default();
    for i in 0..501 {
        state.push_log(&format!("m{i}"), &format!("d{i}"));
    }
    let text = state.copy_log();
    assert_eq!(text.lines().count(), 500);
    assert!(text.starts_with("m1 | d1\n"));
    assert!(text.ends_with("m500 | d500"));
    assert_eq!(state.last_user_log().as_deref(), Some("m500"));
}

#[test]
fn error_phase_keeps_device_and_custom_title() {
    let mut state = AppState::default();
    state.set_error(Some("COM4".to_string()), None, None, "无法写入");
    let snapshot = state.snapshot();
    assert_eq!(snapshot.phase, SessionPhase::Error);
    assert_eq!(snapshot.title, "无法写入");
    assert!(!snapshot.button_enabled);
    assert_eq!(UiDeviceStatus::from(snapshot).kind, "Error");
}

#[test]
fn basic_state_selects_and_clears_a_device() {
    let mut state = msu2_display::basic_flasher::app_state::AppState::default();
    state.set_ready_device("COM7".to_string(), None, Some("x".to_string()));
    assert_eq!(state.selected_port().as_deref(), Some("COM7"));
    state.clear_device();
    assert_eq!(state.selected_port(), None);
    assert_eq!(state.last_user_log(), None);
    assert_eq!(state.copy_log(), "");
}

#[test]
fn basic_ready_status_uses_short_user_text() {
    let status = msu2_display::basic_flasher::app_state::UiDeviceStatus::ready("COM4", "1A86:FE0C", "0123456789");
    assert_eq!(status.kind, "Ready");
    assert_eq!(status.title, "准备就绪");
    assert_eq!(status.port_name.as_deref(), Some("COM4"));
}

#[test]
fn basic_copied_log_contains_detail_but_ui_line_stays_short() {
    let mut state = msu2_display::basic_flasher::app_state::AppState::default();
    state.push_log("设备就绪", "Handshake reply: 00 4D 53 4E 43 4E");
    assert_eq!(state.last_user_log().unwrap(), "设备就绪");
    assert!(state.copy_log().contains("Handshake reply"));
}
