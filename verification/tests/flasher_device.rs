use msu2_display::flasher::device::{
    handshake, info_from_port, matches_target_usb, scan_candidates, IdleRead, PortIo, PortKind, PortListing,
    UsbPortDetails,
};
use msu2_display::flasher::errors::{AppError, AppResult};
use msu2_display::flasher::protocol::HANDSHAKE;

#[derive(Default)]
struct MockPort {
    writes: Vec<Vec<u8>>,
    reads: Vec<Vec<u8>>,
}

impl PortIo for MockPort {
    fn write_all(&mut self, bytes: &[u8]) -> AppResult<()> {
        self.writes.push(bytes.to_vec());
        Ok(())
    }

    fn read_idle(&mut self, _total_ms: u64, _idle_ms: u64) -> AppResult<Vec<u8>> {
        if self.writes.is_empty() || self.reads.is_empty() {
            Ok(Vec::new())
        } else {
            Ok(self.reads.remove(0))
        }
    }
}

fn usb_port(name: &str, vid: u16, pid: u16, product: Option<&str>) -> PortListing {
    PortListing {
        port_name: name.to_string(),
        kind: PortKind::Usb(UsbPortDetails {
            vid,
            pid,
            serial_number: Some("SN123".to_string()),
            manufacturer: Some("WCH".to_string()),
            product: product.map(str::to_string),
        }),
    }
}

#[test]
fn device_candidate_matching_accepts_verified_vid_pid() {
    assert!(matches_target_usb(Some(0x1a86), Some(0xfe0c), Some("CH32x035")));
    assert!(msu2_display::basic_flasher::device::matches_target_usb(Some(0x1a86), Some(0xfe0c), Some("CH32x035")));
}

#[test]
fn device_candidate_matching_accepts_wch_text_when_vid_pid_absent() {
    assert!(matches_target_usb(None, None, Some("WCH CH32x035")));
    assert!(msu2_display::basic_flasher::device::matches_target_usb(None, None, Some("WCH CH32x035")));
}

#[test]
fn task4_candidate_matching_rejects_vendor_only_wch_text() {
    assert!(!matches_target_usb(None, None, Some("WCH USB-SERIAL")));
}

#[test]
fn device_candidate_matching_rejects_unrelated_port() {
    assert!(!matches_target_usb(Some(0x1234), Some(0xabcd), Some("Other")));
    assert!(!msu2_display::basic_flasher::device::matches_target_usb(Some(0x1234), Some(0xabcd), Some("Other")));
}

#[test]
fn task4_candidate_matching_rejects_non_target_vid_pid_even_with_ch32_text() {
    assert!(!matches_target_usb(Some(0x1234), Some(0xabcd), Some("CH32x035")));
}

#[test]
fn task4_info_from_port_rejects_non_target_usb_ids_even_with_matching_product_text() {
    let port = usb_port("COM9", 0x1234, 0xabcd, Some("CH32x035"));
    assert_eq!(info_from_port(&port), None);
}

#[test]
fn basic_matching_also_accepts_vendor_text() {
    assert!(msu2_display::basic_flasher::device::matches_target_usb(None, None, Some("WCH USB-SERIAL")));
    assert!(msu2_display::basic_flasher::device::matches_target_usb(Some(0x1234), Some(0xabcd), Some("ch32")));
    let port = usb_port("COM9", 0x1234, 0xabcd, Some("CH32x035"));
    assert!(msu2_display::basic_flasher::device::info_from_port(&port).is_some());
}

#[test]
fn info_from_port_formats_ids_in_upper_hex() {
    let info = info_from_port(&usb_port("COM4", 0x1a86, 0xfe0c, None)).unwrap();
    assert_eq!(info.port_name, "COM4");
    assert_eq!(info.vid_pid.as_deref(), Some("1A86:FE0C"));
    assert_eq!(info.product, None);
    assert_eq!(info.serial.as_deref(), Some("SN123"));
    let other = PortListing { port_name: "/dev/ttyS1".to_string(), kind: PortKind::Other("PciPort CH32X035".to_string()) };
    let info = info_from_port(&other).unwrap();
    assert_eq!(info.vid_pid, None);
    assert_eq!(info.product.as_deref(), Some("PciPort CH32X035"));
    let plain = PortListing { port_name: "/dev/ttyS0".to_string(), kind: PortKind::Other("Unknown".to_string()) };
    assert_eq!(info_from_port(&plain), None);
    let found = scan_candidates(&[plain, usb_port("COM4", 0x1a86, 0xfe0c, None), other]);
    let names: Vec<&str> = found.iter().map(|d| d.port_name.as_str()).collect();
    assert_eq!(names, vec!["COM4", "/dev/ttyS1"]);
}

#[test]
fn device_handshake_succeeds_with_verified_reply() {
    let mut port = MockPort { writes: vec![], reads: vec![HANDSHAKE.to_vec()] };
    handshake(&mut port).unwrap();
    assert_eq!(port.writes, vec![HANDSHAKE.to_vec()]);

    let mut port = MockPort { writes: vec![], reads: vec![HANDSHAKE.to_vec()] };
    msu2_display::basic_flasher::device::handshake(&mut port).unwrap();
    assert_eq!(port.writes, vec![HANDSHAKE.to_vec()]);
}

#[test]
fn device_handshake_fails_with_wrong_reply() {
    let mut port = MockPort { writes: vec![], reads: vec![vec![0x00, 0x11]] };
    assert!(matches!(handshake(&mut port), Err(AppError::HandshakeFailed)));

    let mut port = MockPort { writes: vec![], reads: vec![vec![0x00, 0x11]] };
    assert!(matches!(msu2_display::basic_flasher::device::handshake(&mut port), Err(AppError::HandshakeFailed)));
}

#[test]
fn idle_clock_starts_with_the_first_byte() {
    let mut read = IdleRead::new(0, 200, 40);
    assert!(!read.is_finished(60));
    read.received(&HANDSHAKE, 60);
    assert!(!read.is_finished(99));
    assert!(read.is_finished(100));
    assert_eq!(read.into_bytes(), HANDSHAKE.to_vec());
    let quiet = IdleRead::new(0, 200, 40);
    assert!(!quiet.is_finished(199));
    assert!(quiet.is_finished(200));
}

#[test]
fn serial_read_waits_for_first_byte_before_starting_idle_timeout() {
    let mut clock_ms: u64 = 0;
    let payload = HANDSHAKE.to_vec();
    let mut sent = false;
    let mut read = IdleRead::new(clock_ms, 200, 40);
    while !read.is_finished(clock_ms) {
        if !sent && clock_ms >= 60 {
            sent = true;
            read.received(&payload, clock_ms);
        } else {
            clock_ms += 3;
        }
    }
    assert_eq!(read.into_bytes(), payload);
}

#[test]
fn basic_candidate_matching_accepts_verified_vid_pid() {
    assert!(msu2_display::basic_flasher::device::matches_target_usb(Some(0x1a86), Some(0xfe0c), Some("CH32x035")));
}

#[test]
fn basic_candidate_matching_accepts_wch_text_when_vid_pid_absent() {
    assert!(msu2_display::basic_flasher::device::matches_target_usb(None, None, Some("WCH CH32x035")));
}

#[test]
fn basic_candidate_matching_rejects_unrelated_port() {
    assert!(!msu2_display::basic_flasher::device::matches_target_usb(Some(0x1234), Some(0xabcd), Some("Other")));
}

#[test]
fn basic_handshake_succeeds_with_verified_reply() {
    let mut port = MockPort { writes: vec![], reads: vec![HANDSHAKE.to_vec()] };
    msu2_display::basic_flasher::device::handshake(&mut port).unwrap();
    assert_eq!(port.writes, vec![HANDSHAKE.to_vec()]);
}

#[test]
fn basic_handshake_fails_with_wrong_reply() {
    let mut port = MockPort { writes: vec![], reads: vec![vec![0x00, 0x11]] };
    assert!(matches!(msu2_display::basic_flasher::device::handshake(&mut port), Err(AppError::HandshakeFailed)));
}
