use std::collections::VecDeque;

use msu2_display::flasher::device::PortIo;
use msu2_display::flasher::errors::{AppError, AppResult};
use msu2_display::flasher::protocol::{load_lcd_address_packet, set_size_packet, set_xy_packet};
use msu2_display::flasher::screen_status::{
    keepalive_pixel, show_flash_done, show_waiting_to_flash, ScreenStatus, StatusScreens, PERCENT_BYTES,
};

#[derive(Default)]
struct MockPort {
    writes: Vec<Vec<u8>>,
    reads: VecDeque<Vec<u8>>,
    read_calls: Vec<(u64, u64)>,
    fail_on_write: Option<usize>,
}

impl MockPort {
    fn failing_probe() -> Self {
        Self {
            writes: Vec::new(),
            reads: VecDeque::from(vec![vec![], vec![], vec![0xde, 0xad]]),
            read_calls: Vec::new(),
            fail_on_write: None,
        }
    }

    fn fail_on_write(write_number: usize) -> Self {
        Self { writes: Vec::new(), reads: VecDeque::new(), read_calls: Vec::new(), fail_on_write: Some(write_number) }
    }
}

impl PortIo for MockPort {
    fn write_all(&mut self, bytes: &[u8]) -> AppResult<()> {
        if self.fail_on_write == Some(self.writes.len() + 1) {
            return Err(AppError::Io("forced write failure".to_string()));
        }
        self.writes.push(bytes.to_vec());
        Ok(())
    }

    fn read_idle(&mut self, total_ms: u64, idle_ms: u64) -> AppResult<Vec<u8>> {
        self.read_calls.push((total_ms, idle_ms));
        if let Some(reply) = self.reads.pop_front() {
            return Ok(reply);
        }
        let Some(last) = self.writes.last() else {
            return Ok(vec![]);
        };
        if last == &[0x02, 0x03, 0x07, 0x00, 0x00, 0x00] {
            return Ok(last.clone());
        }
        Ok(vec![])
    }
}

fn screens() -> StatusScreens<'static> {
    let full = Box::leak(vec![0u8; 160 * 80 * 2].into_boxed_slice());
    let strip = Box::leak(vec![0u8; 101 * PERCENT_BYTES].into_boxed_slice());
    StatusScreens { initial: full, done: full, percent_strip: strip, waiting: full }
}

#[test]
fn probe_failure_disables_screen_status() {
    let mut port = MockPort::failing_probe();
    let status = ScreenStatus::probe(&mut port);
    assert!(!status.is_enabled());
}

#[test]
fn disabled_status_sends_no_updates() {
    let screens = screens();
    let mut port = MockPort::failing_probe();
    let mut status = ScreenStatus::probe(&mut port);
    let writes_after_probe = port.writes.len();
    status.start(&mut port, &screens);
    status.update(&mut port, 25, &screens);
    status.finish(&mut port, &screens);
    assert_eq!(port.writes.len(), writes_after_probe);
}

#[test]
fn start_writes_full_status_screen_first() {
    let screens = screens();
    let mut port = MockPort::default();
    let mut status = ScreenStatus::probe(&mut port);
    let writes_after_probe = port.writes.len();
    status.start(&mut port, &screens);
    let start_writes = &port.writes[writes_after_probe..];
    assert_eq!(start_writes[0], vec![0x02, 0x00, 0x00, 0x00, 0x00, 0x00]);
    assert_eq!(start_writes[1], vec![0x02, 0x01, 0x00, 0xa0, 0x00, 0x50]);
    assert_eq!(start_writes[2], vec![0x02, 0x03, 0x07, 0x00, 0x00, 0x00]);
    assert_eq!(start_writes.len(), 103);
}

#[test]
fn progress_updates_on_each_percent_change() {
    let screens = screens();
    let mut port = MockPort::default();
    let mut status = ScreenStatus::probe(&mut port);
    status.start(&mut port, &screens);
    let writes_after_start = port.writes.len();
    status.update(&mut port, 1, &screens);
    assert!(port.writes.len() > writes_after_start);
    let writes_after_1 = port.writes.len();
    status.update(&mut port, 1, &screens);
    assert_eq!(port.writes.len(), writes_after_1);
    status.update(&mut port, 2, &screens);
    assert!(port.writes.len() > writes_after_1);
    let writes_after_2 = port.writes.len();
    status.update(&mut port, 2, &screens);
    assert_eq!(port.writes.len(), writes_after_2);
}

#[test]
fn write_failure_disables_later_updates() {
    let screens = screens();
    let mut port = MockPort::fail_on_write(5);
    let mut status = ScreenStatus::probe(&mut port);
    status.start(&mut port, &screens);
    assert!(!status.is_enabled());
    let writes_after_failure = port.writes.len();
    status.update(&mut port, 50, &screens);
    assert_eq!(port.writes.len(), writes_after_failure);
}

#[test]
fn waiting_to_flash_writes_full_screen_once() {
    let screens = screens();
    let mut port = MockPort::default();
    show_waiting_to_flash(&mut port, &screens).unwrap();
    assert_eq!(port.writes.len(), 103);
    assert_eq!(port.writes[0], set_xy_packet(0, 0).to_vec());
    assert_eq!(port.writes[1], set_size_packet(160, 80).to_vec());
    assert_eq!(port.writes[2], load_lcd_address_packet().to_vec());
    assert_eq!(port.read_calls, vec![(300, 40), (250, 40)]);
}

#[test]
fn flash_done_writes_full_screen_and_settles() {
    let screens = screens();
    let mut port = MockPort::default();
    show_flash_done(&mut port, &screens).unwrap();
    assert_eq!(port.writes.len(), 103);
    assert_eq!(port.writes[0], set_xy_packet(0, 0).to_vec());
    assert_eq!(port.writes[1], set_size_packet(160, 80).to_vec());
    assert_eq!(port.writes[2], load_lcd_address_packet().to_vec());
    assert_eq!(port.read_calls, vec![(300, 40), (250, 40)]);
}

#[test]
fn keepalive_pixel_writes_one_black_pixel() {
    let mut port = MockPort::default();
    keepalive_pixel(&mut port).unwrap();
    assert_eq!(port.writes.len(), 4);
    assert_eq!(port.writes[0], set_xy_packet(159, 79).to_vec());
    assert_eq!(port.writes[1], set_size_packet(1, 1).to_vec());
    assert_eq!(port.writes[2], load_lcd_address_packet().to_vec());
    assert_eq!(&port.writes[3][0..6], &[0x04, 0x00, 0x00, 0x00, 0xff, 0xff]);
    assert_eq!(port.read_calls, vec![(300, 40)]);
}

#[test]
fn bar_grows_in_green_by_the_new_pixels_only() {
    let screens = screens();
    let mut port = MockPort::default();
    let mut status = ScreenStatus::probe(&mut port);
    status.start(&mut port, &screens);
    let before = port.writes.len();
    status.update(&mut port, 50, &screens);
    let writes = &port.writes[before..];
    assert_eq!(writes[0], set_xy_packet(62, 42).to_vec());
    assert_eq!(writes[1], set_size_packet(36, 13).to_vec());
    let bar = writes.iter().position(|w| *w == set_xy_packet(26, 62).to_vec()).unwrap();
    assert_eq!(writes[bar + 1], set_size_packet(54, 4).to_vec());
    let data = &writes[bar + 3];
    assert_eq!(&data[2..6], &[0x37, 0xef, 0x37, 0xef]);
    let before = port.writes.len();
    status.update(&mut port, 51, &screens);
    let writes = &port.writes[before..];
    let bar = writes.iter().position(|w| *w == set_xy_packet(26 + 54, 62).to_vec()).unwrap();
    assert_eq!(writes[bar + 1], set_size_packet(1, 4).to_vec());
}
