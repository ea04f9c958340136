use std::cell::RefCell;

use msu2_display::flasher::app_state::{AppState, SessionPhase, UiDeviceStatus};
use msu2_display::flasher::commands::{
    candidate_debug_line, complete_flash_success_with, conclude_flash_job, keepalive_lost, mark_flash_error,
    queue_flash_start, record_flash_failure, scan_devices_with, scan_no_device,
};
use msu2_display::flasher::device::DeviceInfo;
use msu2_display::flasher::errors::{AppError, AppResult};
use msu2_display::flasher::session::DisplayWorkerMode;

fn device(port: &str, serial: &str) -> DeviceInfo {
    DeviceInfo {
        port_name: port.to_string(),
        vid_pid: Some("1A86:FE0C".to_string()),
        product: Some("CH32x035".to_string()),
        serial: Some(serial.to_string()),
    }
}

#[test]
fn scan_failure_status_clears_stale_device_and_returns_no_device() {
    let mut state = AppState::default();
    state.set_ready("COM9".to_string(), Some("1A86:FE0C".to_string()), Some("serial-123".to_string()));
    let status = scan_no_device(&mut state, "未连接", "Detailed scan failure");
    assert_eq!(status, UiDeviceStatus::no_device());
    assert_eq!(state.selected_port(), None);
    assert_eq!(state.last_user_log().as_deref(), Some("未连接"));
    assert!(state.copy_log().contains("Detailed scan failure"));
}

#[test]
fn scan_tries_later_candidate_after_first_worker_start_failure() {
    let mut state = AppState::default();
    let started = RefCell::new(Vec::new());
    let stopped = RefCell::new(0);
    let status = scan_devices_with(
        &mut state,
        Ok(vec![device("COM5", "first"), device("COM6", "second")]),
        |candidate| {
            started.borrow_mut().push(candidate.port_name.clone());
            if candidate.port_name == "COM5" {
                Err(AppError::HandshakeFailed)
            } else {
                Ok(())
            }
        },
        || *stopped.borrow_mut() += 1,
    );
    assert_eq!(started.into_inner(), vec!["COM5".to_string(), "COM6".to_string()]);
    assert_eq!(status.port_name.as_deref(), Some("COM6"));
    assert_eq!(status.vid_pid.as_deref(), Some("1A86:FE0C"));
    assert_eq!(status.serial.as_deref(), Some("second"));
    assert_eq!(state.selected_port(), Some("COM6".to_string()));
}

#[test]
fn scan_returns_no_device_when_all_candidates_fail() {
    let mut state = AppState::default();
    let stopped = RefCell::new(0);
    let status = scan_devices_with(
        &mut state,
        Ok(vec![device("COM5", "first"), device("COM6", "second")]),
        |candidate| -> AppResult<()> {
            match candidate.port_name.as_str() {
                "COM5" => Err(AppError::PortBusy(candidate.port_name.clone())),
                "COM6" => Err(AppError::HandshakeFailed),
                _ => unreachable!(),
            }
        },
        || *stopped.borrow_mut() += 1,
    );
    assert_eq!(status, UiDeviceStatus::no_device());
    assert_eq!(state.selected_port(), None);
    assert_eq!(*stopped.borrow(), 0);
    assert!(state.copy_log().contains("Handshake did not return expected MSNCN bytes"));
    assert_eq!(
        state.copy_log(),
        "未连接 | COM5, VID:PID 1A86:FE0C, ID first -> Failed to open serial port COM5; COM6, VID:PID 1A86:FE0C, ID second -> Handshake did not return expected MSNCN bytes"
    );
}

#[test]
fn scan_starts_waiting_worker_for_new_device() {
    let mut state = AppState::default();
    let started = RefCell::new(Vec::new());
    let stopped = RefCell::new(0);
    let status = scan_devices_with(
        &mut state,
        Ok(vec![device("COM4", "serial-123")]),
        |candidate| {
            started.borrow_mut().push((candidate.port_name.clone(), DisplayWorkerMode::WaitingToFlash));
            Ok(())
        },
        || *stopped.borrow_mut() += 1,
    );
    assert_eq!(status.port_name.as_deref(), Some("COM4"));
    assert_eq!(started.into_inner(), vec![("COM4".to_string(), DisplayWorkerMode::WaitingToFlash)]);
    assert_eq!(*stopped.borrow(), 0);
}

#[test]
fn scan_does_not_reopen_existing_ready_device() {
    let mut state = AppState::default();
    state.set_ready("COM4".to_string(), Some("1A86:FE0C".to_string()), Some("serial-123".to_string()));
    let started = RefCell::new(Vec::new());
    let stopped = RefCell::new(0);
    let status = scan_devices_with(
        &mut state,
        Ok(vec![device("COM4", "serial-123")]),
        |candidate| {
            started.borrow_mut().push(candidate.port_name.clone());
            Ok(())
        },
        || *stopped.borrow_mut() += 1,
    );
    assert_eq!(status.port_name.as_deref(), Some("COM4"));
    assert_eq!(status.kind, "Ready");
    assert_eq!(started.into_inner(), Vec::<String>::new());
    assert_eq!(*stopped.borrow(), 0);
}

#[test]
fn scan_does_not_reopen_existing_done_device() {
    let mut state = AppState::default();
    state.set_done("COM4".to_string(), Some("1A86:FE0C".to_string()), Some("serial-123".to_string()));
    let started = RefCell::new(Vec::new());
    let stopped = RefCell::new(0);
    let status = scan_devices_with(
        &mut state,
        Ok(vec![device("COM4", "serial-123")]),
        |candidate| {
            started.borrow_mut().push(candidate.port_name.clone());
            Ok(())
        },
        || *stopped.borrow_mut() += 1,
    );
    assert_eq!(status.port_name.as_deref(), Some("COM4"));
    assert_eq!(status.kind, "Done");
    assert_eq!(started.into_inner(), Vec::<String>::new());
    assert_eq!(*stopped.borrow(), 0);
}

#[test]
fn scan_clears_state_when_selected_port_disappears() {
    let mut state = AppState::default();
    state.set_ready("COM4".to_string(), Some("1A86:FE0C".to_string()), Some("serial-123".to_string()));
    let stopped = RefCell::new(0);
    let status = scan_devices_with(&mut state, Ok(vec![device("COM5", "other")]), |_| Ok(()), || *stopped.borrow_mut() += 1);
    assert_eq!(status.kind, "NoDevice");
    assert_eq!(state.selected_port(), None);
    assert_eq!(*stopped.borrow(), 1);
    assert_eq!(state.last_user_log().as_deref(), Some("未连接"));
    assert!(state.copy_log().ends_with("Selected port COM4 disappeared"));
}

#[test]
fn scan_recovers_error_to_ready_when_device_remains() {
    let mut state = AppState::default();
    state.set_error(
        Some("COM4".to_string()),
        Some("1A86:FE0C".to_string()),
        Some("serial-123".to_string()),
        "无法写入",
    );
    let started = RefCell::new(Vec::new());
    let stopped = RefCell::new(0);
    let status = scan_devices_with(
        &mut state,
        Ok(vec![device("COM4", "serial-123")]),
        |candidate| {
            started.borrow_mut().push(candidate.port_name.clone());
            Ok(())
        },
        || *stopped.borrow_mut() += 1,
    );
    assert_eq!(status.kind, "Ready");
    assert_eq!(started.into_inner(), vec!["COM4".to_string()]);
    assert_eq!(*stopped.borrow(), 0);
}

#[test]
fn scan_keeps_flashing_state_without_touching_serial() {
    let mut state = AppState::default();
    state.set_flashing("COM4".to_string(), Some("1A86:FE0C".to_string()), Some("serial-123".to_string()));
    let started = RefCell::new(Vec::new());
    let stopped = RefCell::new(0);
    let status = scan_devices_with(
        &mut state,
        Err(AppError::Io("enumeration unavailable during flash".to_string())),
        |candidate| {
            started.borrow_mut().push(candidate.port_name.clone());
            Ok(())
        },
        || *stopped.borrow_mut() += 1,
    );
    assert_eq!(status.kind, "Flashing");
    assert_eq!(status.port_name.as_deref(), Some("COM4"));
    assert_eq!(started.into_inner(), Vec::<String>::new());
    assert_eq!(*stopped.borrow(), 0);
}

#[test]
fn scan_error_or_empty_list_forgets_the_device() {
    let mut state = AppState::default();
    state.set_ready("COM4".to_string(), None, None);
    let stopped = RefCell::new(0);
    let status = scan_devices_with(&mut state, Err(AppError::Io("no ports".to_string())), |_| Ok(()), || *stopped.borrow_mut() += 1);
    assert_eq!(status, UiDeviceStatus::no_device());
    assert_eq!(state.copy_log(), "写入失败 | no ports");
    let status = scan_devices_with(&mut state, Ok(vec![]), |_| Ok(()), || *stopped.borrow_mut() += 1);
    assert_eq!(status.kind, "NoDevice");
    assert_eq!(*stopped.borrow(), 2);
    assert!(state.copy_log().ends_with("未连接 | No candidate ports"));
}

#[test]
fn start_flash_rejects_no_device() {
    let mut state = AppState::default();
    let stopped = RefCell::new(0);
    let dispatched = RefCell::new(Vec::new());
    let err = queue_flash_start(&mut state, || *stopped.borrow_mut() += 1, |port_name| {
        dispatched.borrow_mut().push(port_name)
    })
    .unwrap_err();
    assert!(matches!(err, AppError::NoDevice));
    assert_eq!(*stopped.borrow(), 0);
    assert!(dispatched.borrow().is_empty());
}

#[test]
fn start_flash_rejects_already_flashing() {
    let mut state = AppState::default();
    state.set_flashing("COM4".to_string(), Some("1A86:FE0C".to_string()), Some("serial-123".to_string()));
    let stopped = RefCell::new(0);
    let dispatched = RefCell::new(Vec::new());
    let err = queue_flash_start(&mut state, || *stopped.borrow_mut() += 1, |port_name| {
        dispatched.borrow_mut().push(port_name)
    })
    .unwrap_err();
    assert!(matches!(err, AppError::FlashAlreadyRunning));
    assert_eq!(*stopped.borrow(), 0);
    assert!(dispatched.borrow().is_empty());
}

#[test]
fn start_flash_stops_ready_keepalive_before_flash() {
    let mut state = AppState::default();
    state.set_ready("COM4".to_string(), Some("1A86:FE0C".to_string()), Some("serial-123".to_string()));
    let events = RefCell::new(Vec::new());
    queue_flash_start(
        &mut state,
        || events.borrow_mut().push("stop".to_string()),
        |port_name| events.borrow_mut().push(format!("flash:{port_name}")),
    )
    .unwrap();
    assert_eq!(events.into_inner(), vec!["stop".to_string(), "flash:COM4".to_string()]);
    let snapshot = state.snapshot();
    assert_eq!(snapshot.phase, SessionPhase::Flashing);
    assert!(!snapshot.button_enabled);
}

#[test]
fn successful_flash_starts_done_keepalive() {
    let mut state = AppState::default();
    state.set_flashing("COM4".to_string(), Some("1A86:FE0C".to_string()), Some("serial-123".to_string()));
    let started = RefCell::new(Vec::new());
    complete_flash_success_with(&mut state, "COM4", |port_name, mode| {
        started.borrow_mut().push((port_name.to_string(), mode));
        Ok(())
    })
    .unwrap();
    assert_eq!(started.into_inner(), vec![("COM4".to_string(), DisplayWorkerMode::FlashDone)]);
    let snapshot = state.snapshot();
    assert_eq!(snapshot.phase, SessionPhase::Done);
    assert!(snapshot.button_enabled);
}

#[test]
fn failed_flash_marks_error_and_does_not_start_done_keepalive() {
    let mut state = AppState::default();
    state.set_flashing("COM4".to_string(), Some("1A86:FE0C".to_string()), Some("serial-123".to_string()));
    mark_flash_error(&mut state, &AppError::HandshakeFailed);
    let snapshot = state.snapshot();
    assert_eq!(snapshot.phase, SessionPhase::Error);
    assert_eq!(snapshot.port_name.as_deref(), Some("COM4"));
    assert!(!snapshot.button_enabled);
    assert_eq!(snapshot.title, "设备无响应");
}

#[test]
fn done_worker_failure_leaves_the_session_alone() {
    let mut state = AppState::default();
    state.set_flashing("COM4".to_string(), None, None);
    let err = complete_flash_success_with(&mut state, "COM4", |_, _| Err(AppError::PortBusy("COM4".to_string()))).unwrap_err();
    assert_eq!(err, AppError::PortBusy("COM4".to_string()));
    assert_eq!(state.snapshot().phase, SessionPhase::Flashing);
    assert_eq!(state.last_user_log(), None);
}

#[test]
fn failure_is_logged_with_short_text_and_detail() {
    let mut state = AppState::default();
    let ui = record_flash_failure(&mut state, &AppError::Protocol("write page 7 expected [03], got []".to_string()));
    assert_eq!(ui.message, "写入失败");
    assert_eq!(ui.detail, "write page 7 expected [03], got []");
    assert_eq!(state.copy_log(), "写入失败 | write page 7 expected [03], got []");
}

#[test]
fn candidate_line_lists_known_ids() {
    assert_eq!(candidate_debug_line(&device("COM5", "first")), "COM5, VID:PID 1A86:FE0C, ID first");
    let bare = DeviceInfo { port_name: "COM1".to_string(), vid_pid: None, product: None, serial: None };
    assert_eq!(candidate_debug_line(&bare), "COM1");
}

#[test]
fn concluded_successful_job_ends_done() {
    let mut state = AppState::default();
    state.set_flashing("COM7".to_string(), Some("1A86:FE0C".to_string()), None);
    let started = RefCell::new(Vec::new());
    let result = conclude_flash_job(&mut state, "COM7", Ok(()), |port: &str, mode: DisplayWorkerMode| -> AppResult<()> {
        started.borrow_mut().push((port.to_string(), mode));
        Ok(())
    });
    assert!(result.is_ok());
    assert_eq!(started.into_inner(), vec![("COM7".to_string(), DisplayWorkerMode::FlashDone)]);
    assert_eq!(state.snapshot().phase, SessionPhase::Done);
    assert_eq!(state.last_user_log().as_deref(), Some("写入完成"));
}

#[test]
fn concluded_failed_job_marks_error_and_logs() {
    let mut state = AppState::default();
    state.set_flashing("COM7".to_string(), None, None);
    let result = conclude_flash_job(&mut state, "COM7", Err(AppError::HandshakeFailed), |_: &str, _: DisplayWorkerMode| -> AppResult<()> {
        panic!("the done worker must not start after a failed job")
    });
    let ui = result.unwrap_err();
    assert_eq!(ui.message, AppError::HandshakeFailed.user_message());
    assert_eq!(ui.detail, AppError::HandshakeFailed.detail());
    let snapshot = state.snapshot();
    assert_eq!(snapshot.phase, SessionPhase::Error);
    assert_eq!(snapshot.port_name.as_deref(), Some("COM7"));
    assert_eq!(snapshot.title, AppError::HandshakeFailed.user_message());
    assert_eq!(state.last_user_log(), Some(AppError::HandshakeFailed.user_message()));
}

#[test]
fn concluded_job_whose_done_worker_fails_marks_error() {
    let mut state = AppState::default();
    state.set_flashing("COM7".to_string(), None, None);
    let result = conclude_flash_job(&mut state, "COM7", Ok(()), |port: &str, _: DisplayWorkerMode| -> AppResult<()> {
        Err(AppError::PortBusy(port.to_string()))
    });
    let ui = result.unwrap_err();
    assert_eq!(ui.message, AppError::PortBusy("COM7".to_string()).user_message());
    assert_eq!(state.snapshot().phase, SessionPhase::Error);
}

#[test]
fn lost_keepalive_on_selected_port_forgets_the_device() {
    let mut state = AppState::default();
    state.set_ready("COM3".to_string(), Some("1A86:FE0C".to_string()), Some("abc".to_string()));
    let status = keepalive_lost(&mut state, "COM3", &AppError::Disconnected);
    assert_eq!(status, Some(UiDeviceStatus::no_device()));
    assert_eq!(state.selected_port(), None);
    assert_eq!(state.last_user_log().as_deref(), Some("设备已断开"));
    assert!(state.copy_log().contains(&AppError::Disconnected.detail()));
}

#[test]
fn lost_keepalive_on_another_port_keeps_the_device() {
    let mut state = AppState::default();
    state.set_ready("COM3".to_string(), None, None);
    let status = keepalive_lost(&mut state, "COM4", &AppError::Disconnected);
    assert_eq!(status, None);
    assert_eq!(state.selected_port().as_deref(), Some("COM3"));
    assert_eq!(state.last_user_log().as_deref(), Some("设备已断开"));
}
