use msu2_display::host::device_scan::{match_target_tty, scan_target_ttys, TtyEntry, UsbAttrs};
use msu2_display::host::platform::unsupported_platform_message;
use msu2_display::host::serial::{
    classify_errno, classify_errno_with, classify_poll_revents, ErrnoCodes, SerialErrorKind, TimeoutCounter,
};
use msu2_display::host::usb_events::{choose_event_mode, EventMode};

#[test]
fn matches_verified_vid_pid_in_usb_ancestry() {
    assert!(match_target_tty(
        "ttyACM0",
        &[UsbAttrs { id_vendor: "1a86".to_string(), id_product: "fe0c".to_string() }]
    ));
}

#[test]
fn rejects_wrong_vid_pid() {
    assert!(!match_target_tty(
        "ttyUSB0",
        &[UsbAttrs { id_vendor: "1a86".to_string(), id_product: "7523".to_string() }]
    ));
}

#[test]
fn accepts_uppercase_sysfs_hex() {
    assert!(match_target_tty(
        "ttyACM0",
        &[UsbAttrs { id_vendor: "1A86".to_string(), id_product: "FE0C".to_string() }]
    ));
}

#[test]
fn scan_keeps_only_screens_in_listing_order() {
    let target = || vec![UsbAttrs { id_vendor: "1a86".to_string(), id_product: "fe0c".to_string() }];
    let entries = vec![
        TtyEntry { name: "ttyS0".to_string(), ancestry: vec![] },
        TtyEntry { name: "ttyACM1".to_string(), ancestry: target() },
        TtyEntry {
            name: "ttyUSB0".to_string(),
            ancestry: vec![UsbAttrs { id_vendor: "0403".to_string(), id_product: "6001".to_string() }],
        },
        TtyEntry { name: "ttyACM0".to_string(), ancestry: target() },
    ];
    let found = scan_target_ttys(&entries, "/dev");
    let paths: Vec<&str> = found.iter().map(|d| d.path.as_str()).collect();
    assert_eq!(paths, vec!["/dev/ttyACM1", "/dev/ttyACM0"]);
    assert_eq!(found[0].name, "ttyACM1");
    assert_eq!(scan_target_ttys(&entries[1..2], "/dev/")[0].path, "/dev/ttyACM1");
}

#[test]
fn device_gone_errors_are_disconnected() {
    assert_eq!(classify_errno(libc::EIO), SerialErrorKind::Disconnected);
    assert_eq!(classify_errno(libc::ENODEV), SerialErrorKind::Disconnected);
    assert_eq!(classify_errno(libc::ENXIO), SerialErrorKind::Disconnected);
}

#[test]
fn would_block_is_a_timeout_and_the_rest_is_other() {
    assert_eq!(classify_errno(libc::EAGAIN), SerialErrorKind::Timeout);
    assert_eq!(classify_errno(libc::EINVAL), SerialErrorKind::Other);
    assert_eq!(classify_errno(0), SerialErrorKind::Other);
}

#[test]
fn poll_hangup_and_error_are_disconnected() {
    assert_eq!(classify_poll_revents(libc::POLLHUP), Some(SerialErrorKind::Disconnected));
    assert_eq!(classify_poll_revents(libc::POLLERR), Some(SerialErrorKind::Disconnected));
    assert_eq!(classify_poll_revents(libc::POLLNVAL), Some(SerialErrorKind::Disconnected));
    assert_eq!(classify_poll_revents(libc::POLLIN), None);
    assert_eq!(classify_poll_revents(0), None);
}

#[test]
fn third_consecutive_timeout_reaches_the_limit() {
    let mut counter = TimeoutCounter::new(3);
    assert!(!counter.record_timeout());
    assert!(!counter.record_timeout());
    counter.record_success();
    assert!(!counter.record_timeout());
    assert!(!counter.record_timeout());
    assert!(counter.record_timeout());
}

#[test]
fn event_mode_values_are_stable_for_logging() {
    assert_eq!(format!("{:?}", EventMode::Netlink), "Netlink");
    assert_eq!(format!("{:?}", EventMode::Polling), "Polling");
}

#[test]
fn non_linux_uses_polling_mode() {
    assert_eq!(choose_event_mode(false), EventMode::Polling);
    assert_eq!(choose_event_mode(true), EventMode::Netlink);
}

#[test]
fn non_linux_platform_has_unsupported_message() {
    assert!(unsupported_platform_message().contains("miniboard-ipd is only supported on Linux"));
}

#[test]
fn errno_table_of_linux_and_macos() {
    let linux = ErrnoCodes { eio: 5, enodev: 19, enxio: 6, eagain: 11 };
    let macos = ErrnoCodes { eio: 5, enodev: 19, enxio: 6, eagain: 35 };
    assert_eq!(classify_errno_with(11, linux), SerialErrorKind::Timeout);
    assert_eq!(classify_errno_with(35, linux), SerialErrorKind::Other);
    assert_eq!(classify_errno_with(35, macos), SerialErrorKind::Timeout);
    assert_eq!(classify_errno_with(11, macos), SerialErrorKind::Other);
    assert_eq!(classify_errno_with(19, macos), SerialErrorKind::Disconnected);
    assert_eq!(classify_errno_with(6, linux), SerialErrorKind::Disconnected);
}

#[test]
fn poll_bits_outside_the_three_are_ignored() {
    assert_eq!(classify_poll_revents(0x38), Some(SerialErrorKind::Disconnected));
    assert_eq!(classify_poll_revents(0x01 | 0x04 | 0x40), None);
}
