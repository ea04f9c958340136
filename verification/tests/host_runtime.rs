use std::cell::Cell;
use std::collections::VecDeque;

use msu2_display::host::cli::{DisplayMode, RunOptions};
use msu2_display::host::device_scan::TtyDevice;
use msu2_display::host::display::{DisplayRenderer, WireWrite};
use msu2_display::host::ip_detect::{AddressCandidate, NetworkSnapshot, Route};
use msu2_display::host::ipv4::Ipv4Addr;
use msu2_display::host::protocol::{
    load_lcd_address_packet, load_ram_mix_show_packet, set_size_packet, set_xy_packet, IP_BACKGROUND_PAGE,
    SCREEN_HEIGHT, SCREEN_WIDTH,
};
use msu2_display::host::runtime::{IoFailure, Runtime, RuntimeIo};
use msu2_display::host::serial::classify_errno;

#[derive(Default)]
struct FakeIo {
    now: Cell<u64>,
    devices: Vec<TtyDevice>,
    connect_results: VecDeque<Result<(), IoFailure>>,
    snapshot_results: VecDeque<Result<Option<NetworkSnapshot>, IoFailure>>,
    send_results: VecDeque<Result<(), IoFailure>>,
    events: Vec<String>,
}

impl FakeIo {
    fn set_now(&self, now: u64) {
        self.now.set(now);
    }
}

impl RuntimeIo for FakeIo {
    fn scan_devices(&mut self) -> Result<Vec<TtyDevice>, IoFailure> {
        self.events.push("scan".to_string());
        Ok(self.devices.clone())
    }

    fn connect(&mut self, device: &TtyDevice) -> Result<(), IoFailure> {
        self.events.push(format!("connect:{}", device.path));
        self.connect_results.pop_front().unwrap_or(Ok(()))
    }

    fn disconnect(&mut self) {
        self.events.push("disconnect".to_string());
    }

    fn network_snapshot(&mut self) -> Result<Option<NetworkSnapshot>, IoFailure> {
        self.events.push("snapshot".to_string());
        self.snapshot_results.pop_front().unwrap_or_else(|| Ok(Some(NetworkSnapshot::default())))
    }

    fn send_writes(&mut self, writes: &[WireWrite]) -> Result<(), IoFailure> {
        let marker = if writes == DisplayRenderer::pending() {
            "pending"
        } else if writes == DisplayRenderer::dhcp_failed() {
            "dhcp_failed"
        } else if is_qr_writes(writes) {
            "qr"
        } else if writes == DisplayRenderer::keepalive_white() {
            "keepalive_white"
        } else if writes.iter().any(|write| write.bytes == load_ram_mix_show_packet(IP_BACKGROUND_PAGE).to_vec()) {
            "ip"
        } else {
            "other"
        };
        self.events.push(format!("writes:{marker}"));
        self.send_results.pop_front().unwrap_or(Ok(()))
    }

    fn sleep(&mut self, duration_ms: u64) {
        self.events.push(format!("sleep:{}", duration_ms));
    }

    fn now(&self) -> u64 {
        self.now.get()
    }
}

fn is_qr_writes(writes: &[WireWrite]) -> bool {
    writes.len() == 103
        && writes[0].bytes == set_xy_packet(0, 0).to_vec()
        && writes[1].bytes == set_size_packet(SCREEN_WIDTH, SCREEN_HEIGHT).to_vec()
        && writes[2].bytes == load_lcd_address_packet().to_vec()
}

fn options() -> RunOptions {
    RunOptions { interface: None, dhcp_fail_delay_secs: 45, debug: false, show: DisplayMode::Text }
}

fn target_device() -> TtyDevice {
    TtyDevice { path: "/dev/ttyACM0".to_string(), name: "ttyACM0".to_string() }
}

fn ipv4_snapshot(address: [u8; 4]) -> NetworkSnapshot {
    NetworkSnapshot {
        addresses: vec![AddressCandidate {
            interface: "eth0".to_string(),
            address: Ipv4Addr(address[0], address[1], address[2], address[3]),
            is_dynamic: true,
            is_up: true,
            is_lower_up: true,
        }],
        routes: vec![Route { interface: "eth0".to_string(), is_default: true }],
    }
}

fn link_local() -> NetworkSnapshot {
    NetworkSnapshot {
        addresses: vec![AddressCandidate {
            interface: "eth0".to_string(),
            address: Ipv4Addr::new(169, 254, 1, 2),
            is_dynamic: true,
            is_up: true,
            is_lower_up: true,
        }],
        routes: vec![],
    }
}

fn timeout_error() -> IoFailure {
    IoFailure { kind: classify_errno(libc::EAGAIN), message: "Resource temporarily unavailable".to_string() }
}

fn disconnected_error() -> IoFailure {
    IoFailure { kind: classify_errno(libc::EIO), message: "Input/output error".to_string() }
}

fn other_error() -> IoFailure {
    IoFailure { kind: classify_errno(libc::EINVAL), message: "unexpected collector failure".to_string() }
}

fn count(runtime: &Runtime<FakeIo>, event: &str) -> usize {
    runtime.io().events.iter().filter(|e| e.as_str() == event).count()
}

const START: u64 = 1_000_000;

#[test]
fn tick_connects_device_and_renders_pending_then_ip() {
    let io = FakeIo {
        now: Cell::new(START),
        devices: vec![target_device()],
        snapshot_results: VecDeque::from([Ok(Some(ipv4_snapshot([192, 168, 1, 20])))]),
        ..FakeIo::default()
    };
    let mut runtime = Runtime::new(options(), io);
    runtime.tick().unwrap();
    assert_eq!(
        runtime.io().events,
        vec!["scan", "connect:/dev/ttyACM0", "writes:pending", "snapshot", "writes:ip", "sleep:500"]
    );
}

#[test]
fn flashed_mode_keeps_page_based_pending_status() {
    let io = FakeIo {
        now: Cell::new(START),
        devices: vec![target_device()],
        snapshot_results: VecDeque::from([Ok(Some(NetworkSnapshot::default()))]),
        ..FakeIo::default()
    };
    let mut runtime = Runtime::new(options(), io);
    runtime.tick().unwrap();
    assert!(runtime.io().events.iter().any(|event| event == "writes:pending"));
}

#[test]
fn qr_mode_renders_qr_instead_of_text_ip() {
    let mut options = options();
    options.show = DisplayMode::Qr { template: "http://{ip}/".to_string() };
    let io = FakeIo {
        now: Cell::new(START),
        devices: vec![target_device()],
        snapshot_results: VecDeque::from([Ok(Some(ipv4_snapshot([10, 0, 0, 5])))]),
        ..FakeIo::default()
    };
    let mut runtime = Runtime::new(options, io);
    runtime.tick().unwrap();
    assert!(runtime.io().events.iter().any(|event| event == "writes:qr"));
    assert!(!runtime.io().events.iter().any(|event| event == "writes:ip"));
}

#[test]
fn qr_mode_keepalive_uses_white_pixel() {
    let mut options = options();
    options.show = DisplayMode::Qr { template: "http://{ip}/".to_string() };
    let snapshot = ipv4_snapshot([10, 0, 0, 5]);
    let io = FakeIo {
        now: Cell::new(START),
        devices: vec![target_device()],
        snapshot_results: VecDeque::from([Ok(Some(snapshot.clone())), Ok(Some(snapshot))]),
        ..FakeIo::default()
    };
    let mut runtime = Runtime::new(options, io);
    runtime.tick().unwrap();
    runtime.io().set_now(START + 800);
    runtime.tick().unwrap();
    assert!(runtime.io().events.iter().any(|event| event == "writes:keepalive_white"));
}

#[test]
fn keepalive_is_sent_within_one_second_after_displaying_ip() {
    let snapshot = ipv4_snapshot([192, 168, 1, 20]);
    let io = FakeIo {
        now: Cell::new(START),
        devices: vec![target_device()],
        snapshot_results: VecDeque::from([Ok(Some(snapshot.clone())), Ok(Some(snapshot))]),
        ..FakeIo::default()
    };
    let mut runtime = Runtime::new(options(), io);
    runtime.tick().unwrap();
    runtime.io().set_now(START + 800);
    runtime.tick().unwrap();
    assert_eq!(count(&runtime, "writes:other"), 1);
}

#[test]
fn tick_disconnects_after_three_consecutive_serial_timeouts() {
    let io = FakeIo {
        now: Cell::new(START),
        devices: vec![target_device()],
        snapshot_results: VecDeque::from([
            Ok(Some(ipv4_snapshot([192, 168, 1, 20]))),
            Ok(Some(ipv4_snapshot([192, 168, 1, 20]))),
            Ok(Some(ipv4_snapshot([192, 168, 1, 20]))),
            Ok(Some(ipv4_snapshot([192, 168, 1, 20]))),
        ]),
        send_results: VecDeque::from([Ok(()), Ok(()), Err(timeout_error()), Err(timeout_error()), Err(timeout_error())]),
        ..FakeIo::default()
    };
    let mut runtime = Runtime::new(options(), io);
    runtime.tick().unwrap();
    runtime.io().set_now(START + 11_000);
    runtime.tick().unwrap();
    runtime.io().set_now(START + 12_000);
    runtime.tick().unwrap();
    runtime.io().set_now(START + 13_000);
    runtime.tick().unwrap();
    assert_eq!(runtime.io().events.last().map(String::as_str), Some("sleep:500"));
    assert_eq!(count(&runtime, "disconnect"), 1);
}

#[test]
fn tick_recovers_to_scanning_after_disconnect_like_send_error() {
    let io = FakeIo {
        now: Cell::new(START),
        devices: vec![target_device()],
        snapshot_results: VecDeque::from([
            Ok(Some(ipv4_snapshot([192, 168, 1, 20]))),
            Ok(Some(ipv4_snapshot([192, 168, 1, 20]))),
        ]),
        send_results: VecDeque::from([Ok(()), Ok(()), Err(disconnected_error())]),
        ..FakeIo::default()
    };
    let mut runtime = Runtime::new(options(), io);
    runtime.tick().unwrap();
    runtime.io().set_now(START + 11_000);
    runtime.tick().unwrap();
    runtime.io().set_now(START + 12_000);
    runtime.tick().unwrap();
    assert!(runtime.io().events.windows(2).any(|window| window == ["disconnect", "sleep:500"]));
    assert!(runtime.io().events.iter().any(|event| event == "scan"));
}

#[test]
fn serial_timeouts_remain_consecutive_across_network_snapshot_successes() {
    let io = FakeIo {
        now: Cell::new(START),
        devices: vec![target_device()],
        snapshot_results: VecDeque::from([
            Ok(Some(ipv4_snapshot([192, 168, 1, 20]))),
            Ok(Some(ipv4_snapshot([192, 168, 1, 20]))),
            Ok(Some(ipv4_snapshot([192, 168, 1, 21]))),
            Ok(Some(ipv4_snapshot([192, 168, 1, 22]))),
        ]),
        send_results: VecDeque::from([Ok(()), Ok(()), Err(timeout_error()), Err(timeout_error()), Err(timeout_error())]),
        ..FakeIo::default()
    };
    let mut runtime = Runtime::new(options(), io);
    runtime.tick().unwrap();
    runtime.io().set_now(START + 11_000);
    runtime.tick().unwrap();
    runtime.io().set_now(START + 12_000);
    runtime.tick().unwrap();
    runtime.io().set_now(START + 13_000);
    runtime.tick().unwrap();
    assert_eq!(count(&runtime, "disconnect"), 1);
}

#[test]
fn timed_out_display_update_is_retried_for_identical_snapshot() {
    let snapshot = ipv4_snapshot([192, 168, 1, 20]);
    let io = FakeIo {
        now: Cell::new(START),
        devices: vec![target_device()],
        snapshot_results: VecDeque::from([Ok(Some(snapshot.clone())), Ok(Some(snapshot))]),
        send_results: VecDeque::from([Ok(()), Err(timeout_error()), Ok(())]),
        ..FakeIo::default()
    };
    let mut runtime = Runtime::new(options(), io);
    runtime.tick().unwrap();
    runtime.io().set_now(START + 1_000);
    runtime.tick().unwrap();
    assert_eq!(count(&runtime, "writes:ip"), 2);
}

#[test]
fn network_snapshot_error_keeps_display_session_alive() {
    let io = FakeIo {
        now: Cell::new(START),
        devices: vec![target_device()],
        snapshot_results: VecDeque::from([Err(other_error()), Ok(Some(ipv4_snapshot([192, 168, 1, 20])))]),
        ..FakeIo::default()
    };
    let mut runtime = Runtime::new(options(), io);
    runtime.tick().unwrap();
    runtime.io().set_now(START + 800);
    runtime.tick().unwrap();
    assert_eq!(count(&runtime, "writes:pending"), 1);
    assert!(runtime.io().events.iter().any(|event| event == "writes:ip"));
    assert!(!runtime.io().events.iter().any(|event| event == "disconnect"));
}

#[test]
fn stale_network_snapshot_returns_display_to_pending() {
    let io = FakeIo {
        now: Cell::new(START),
        devices: vec![target_device()],
        snapshot_results: VecDeque::from([Ok(Some(ipv4_snapshot([192, 168, 1, 20]))), Ok(None), Ok(None)]),
        ..FakeIo::default()
    };
    let mut runtime = Runtime::new(options(), io);
    runtime.tick().unwrap();
    runtime.io().set_now(START + 1_000);
    runtime.tick().unwrap();
    runtime.io().set_now(START + 2_500);
    runtime.tick().unwrap();
    assert_eq!(count(&runtime, "writes:pending"), 2);
}

#[test]
fn pending_page_is_periodically_refreshed_while_waiting_for_ip() {
    let io = FakeIo {
        now: Cell::new(START),
        devices: vec![target_device()],
        snapshot_results: VecDeque::from([Ok(Some(NetworkSnapshot::default())), Ok(Some(NetworkSnapshot::default()))]),
        ..FakeIo::default()
    };
    let mut runtime = Runtime::new(options(), io);
    runtime.tick().unwrap();
    runtime.io().set_now(START + 2_100);
    runtime.tick().unwrap();
    assert_eq!(count(&runtime, "writes:pending"), 2);
}

#[test]
fn failure_candidate_keeps_pending_page_visible_before_failure_delay() {
    let io = FakeIo {
        now: Cell::new(START),
        devices: vec![target_device()],
        snapshot_results: VecDeque::from([Ok(Some(link_local())), Ok(Some(link_local()))]),
        ..FakeIo::default()
    };
    let mut runtime = Runtime::new(options(), io);
    runtime.tick().unwrap();
    runtime.io().set_now(START + 2_100);
    runtime.tick().unwrap();
    assert_eq!(count(&runtime, "writes:pending"), 2);
}

#[test]
fn connect_failure_uses_backoff_before_retrying_same_device() {
    let io = FakeIo {
        now: Cell::new(START),
        devices: vec![target_device()],
        connect_results: VecDeque::from([Err(timeout_error()), Ok(())]),
        ..FakeIo::default()
    };
    let mut runtime = Runtime::new(options(), io);
    runtime.tick().unwrap();
    runtime.io().set_now(START + 100);
    runtime.tick().unwrap();
    runtime.io().set_now(START + 500);
    runtime.tick().unwrap();
    assert_eq!(runtime.io().events.iter().filter(|event| event.starts_with("connect:")).count(), 2);
    assert_eq!(runtime.io().events.iter().position(|event| event.starts_with("connect:")), Some(1));
}

#[test]
fn pending_screen_failure_closes_half_open_session() {
    let io = FakeIo {
        now: Cell::new(START),
        devices: vec![target_device()],
        send_results: VecDeque::from([Err(timeout_error())]),
        ..FakeIo::default()
    };
    let mut runtime = Runtime::new(options(), io);
    runtime.tick().unwrap();
    assert!(runtime.io().events.iter().any(|event| event == "disconnect"));
    assert!(!runtime.connected());
}

#[test]
fn unexpected_tick_error_resets_daemon_so_same_ip_is_redrawn_after_reconnect() {
    let snapshot = ipv4_snapshot([192, 168, 1, 20]);
    let io = FakeIo {
        now: Cell::new(START),
        devices: vec![target_device()],
        snapshot_results: VecDeque::from([Ok(Some(snapshot.clone())), Ok(Some(snapshot.clone())), Ok(Some(snapshot))]),
        send_results: VecDeque::from([Ok(()), Ok(()), Err(other_error()), Ok(()), Ok(())]),
        ..FakeIo::default()
    };
    let mut runtime = Runtime::new(options(), io);
    runtime.tick().unwrap();
    runtime.io().set_now(START + 1_000);
    let err = runtime.tick().unwrap_err();
    runtime.recover_after_unexpected_tick_error(err);
    runtime.io().set_now(START + 2_000);
    runtime.tick().unwrap();
    assert_eq!(count(&runtime, "writes:pending"), 2);
    assert_eq!(count(&runtime, "writes:ip"), 2);
    assert!(runtime.io().events.iter().any(|event| event == "disconnect"));
}

#[test]
fn no_device_keeps_scanning() {
    let io = FakeIo { now: Cell::new(START), ..FakeIo::default() };
    let mut runtime = Runtime::new(options(), io);
    runtime.tick().unwrap();
    runtime.tick().unwrap();
    assert_eq!(runtime.io().events, vec!["scan", "sleep:500", "scan", "sleep:500"]);
    assert!(!runtime.connected());
}
