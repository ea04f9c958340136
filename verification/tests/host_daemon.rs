use msu2_display::host::cli::{DisplayMode, RunOptions};
use msu2_display::host::daemon::{Daemon, DaemonAction, DaemonEvent, DaemonState};
use msu2_display::host::ip_detect::{AddressCandidate, NetworkSnapshot, Route};
use msu2_display::host::ipv4::Ipv4Addr;

fn options() -> RunOptions {
    RunOptions { interface: None, dhcp_fail_delay_secs: 45, debug: false, show: DisplayMode::Text }
}

fn snapshot(address: [u8; 4]) -> NetworkSnapshot {
    NetworkSnapshot {
        addresses: vec![AddressCandidate {
            interface: "eth0".to_string(),
            address: Ipv4Addr(address[0], address[1], address[2], address[3]),
            is_dynamic: true,
            is_up: true,
            is_lower_up: true,
        }],
        routes: vec![Route { interface: "eth0".to_string(), is_default: true }],
    }
}

fn link_local() -> NetworkSnapshot {
    NetworkSnapshot {
        addresses: vec![AddressCandidate {
            interface: "eth0".to_string(),
            address: Ipv4Addr::new(169, 254, 1, 2),
            is_dynamic: true,
            is_up: true,
            is_lower_up: true,
        }],
        routes: vec![],
    }
}

#[test]
fn connect_success_shows_pending_page() {
    let mut daemon = Daemon::new(options());
    assert_eq!(daemon.handle_event(DaemonEvent::DeviceCandidateFound), vec![DaemonAction::OpenDevice]);
    assert_eq!(daemon.state, DaemonState::Connecting);
    assert_eq!(daemon.handle_event(DaemonEvent::HandshakeOk), vec![DaemonAction::ShowPending]);
    assert_eq!(daemon.state, DaemonState::ConnectedPendingIp);
}

#[test]
fn displayable_ip_switches_to_showing_ip() {
    let mut daemon = Daemon::new(options());
    daemon.handle_event(DaemonEvent::DeviceCandidateFound);
    daemon.handle_event(DaemonEvent::HandshakeOk);
    let now = 1_000;
    assert_eq!(
        daemon.handle_event(DaemonEvent::NetworkSnapshot { snapshot: snapshot([192, 168, 1, 20]), now_ms: now }),
        vec![DaemonAction::ShowIp(Ipv4Addr::new(192, 168, 1, 20))]
    );
    assert_eq!(daemon.state, DaemonState::ConnectedShowingIp(Ipv4Addr::new(192, 168, 1, 20)));
}

#[test]
fn link_local_waits_for_failure_delay_before_failure_page() {
    let mut daemon = Daemon::new(options());
    daemon.handle_event(DaemonEvent::DeviceCandidateFound);
    daemon.handle_event(DaemonEvent::HandshakeOk);
    let start = 5_000;
    assert_eq!(
        daemon.handle_event(DaemonEvent::NetworkSnapshot { snapshot: link_local(), now_ms: start }),
        Vec::<DaemonAction>::new()
    );
    assert_eq!(
        daemon.handle_event(DaemonEvent::NetworkSnapshot { snapshot: link_local(), now_ms: start + 45_000 }),
        vec![DaemonAction::ShowDhcpFailed]
    );
    assert_eq!(daemon.state, DaemonState::ConnectedDhcpFailed);
}

#[test]
fn disconnect_closes_device_and_returns_to_listening() {
    let mut daemon = Daemon::new(options());
    daemon.handle_event(DaemonEvent::DeviceCandidateFound);
    daemon.handle_event(DaemonEvent::HandshakeOk);
    assert_eq!(daemon.handle_event(DaemonEvent::DeviceDisconnected), vec![DaemonAction::CloseDevice]);
    assert_eq!(daemon.state, DaemonState::Listening);
}

#[test]
fn failure_page_is_not_shown_one_millisecond_early() {
    let mut daemon = Daemon::new(options());
    daemon.handle_event(DaemonEvent::DeviceCandidateFound);
    daemon.handle_event(DaemonEvent::HandshakeOk);
    daemon.handle_event(DaemonEvent::NetworkSnapshot { snapshot: link_local(), now_ms: 10 });
    assert!(daemon.handle_event(DaemonEvent::NetworkSnapshot { snapshot: link_local(), now_ms: 45_009 }).is_empty());
    assert_eq!(daemon.state, DaemonState::ConnectedPendingIp);
    assert_eq!(
        daemon.handle_event(DaemonEvent::NetworkSnapshot { snapshot: link_local(), now_ms: 45_010 }),
        vec![DaemonAction::ShowDhcpFailed]
    );
}

#[test]
fn same_snapshot_twice_redraws_nothing() {
    let mut daemon = Daemon::new(options());
    daemon.handle_event(DaemonEvent::DeviceCandidateFound);
    daemon.handle_event(DaemonEvent::HandshakeOk);
    assert_eq!(daemon.handle_event(DaemonEvent::NetworkSnapshot { snapshot: snapshot([10, 0, 0, 5]), now_ms: 1 }).len(), 1);
    assert!(daemon.handle_event(DaemonEvent::NetworkSnapshot { snapshot: snapshot([10, 0, 0, 5]), now_ms: 2 }).is_empty());
    assert!(daemon.handle_event(DaemonEvent::NetworkSnapshot { snapshot: NetworkSnapshot::default(), now_ms: 3 }) == vec![DaemonAction::ShowPending]);
    assert!(daemon.handle_event(DaemonEvent::NetworkSnapshot { snapshot: NetworkSnapshot::default(), now_ms: 4 }).is_empty());
}

#[test]
fn events_out_of_order_are_ignored() {
    let mut daemon = Daemon::new(options());
    assert!(daemon.handle_event(DaemonEvent::HandshakeOk).is_empty());
    assert!(daemon.handle_event(DaemonEvent::NetworkSnapshot { snapshot: snapshot([10, 0, 0, 5]), now_ms: 1 }).is_empty());
    assert_eq!(daemon.state, DaemonState::Listening);
    daemon.handle_event(DaemonEvent::DeviceCandidateFound);
    assert!(daemon.handle_event(DaemonEvent::DeviceCandidateFound).is_empty());
    assert_eq!(daemon.state, DaemonState::Connecting);
}

#[test]
fn repeated_failure_snapshots_end_on_dhcp_failed_after_the_delay() {
    let mut daemon = Daemon::new(options());
    daemon.handle_event(DaemonEvent::DeviceCandidateFound);
    daemon.handle_event(DaemonEvent::HandshakeOk);
    let mut shown = Vec::new();
    for now_ms in [1_000u64, 20_000, 45_999, 46_000, 50_000] {
        shown.extend(daemon.handle_event(DaemonEvent::NetworkSnapshot { snapshot: link_local(), now_ms }));
    }
    assert_eq!(shown, vec![DaemonAction::ShowDhcpFailed]);
    assert_eq!(daemon.state, DaemonState::ConnectedDhcpFailed);
}
