use std::collections::VecDeque;

use msu2_display::flasher::assets::{FlashAsset, FlashImage, IMAGE_BYTES, PAGES_PER_IMAGE, PAGE_BYTES};
use msu2_display::flasher::device::PortIo;
use msu2_display::flasher::errors::{AppError, AppResult};
use msu2_display::flasher::flashing::{
    flash_images, flash_images_with_screen_status, preview_page, write_lcd_region, FlashPhase, RetryPolicy,
    PREVIEW_PAGES,
};
use msu2_display::flasher::protocol::{erase_flash_pages_packet, expected_write_reply};
use msu2_display::flasher::screen_status::{StatusScreens, PERCENT_BYTES};

struct MockPort {
    writes: Vec<Vec<u8>>,
    replies: VecDeque<Vec<u8>>,
    read_calls: Vec<(u64, u64)>,
}

impl MockPort {
    fn new() -> Self {
        Self { writes: Vec::new(), replies: VecDeque::new(), read_calls: Vec::new() }
    }

    fn with_replies(replies: Vec<Vec<u8>>) -> Self {
        Self { writes: Vec::new(), replies: replies.into(), read_calls: Vec::new() }
    }
}

impl PortIo for MockPort {
    fn write_all(&mut self, bytes: &[u8]) -> AppResult<()> {
        self.writes.push(bytes.to_vec());
        Ok(())
    }

    fn read_idle(&mut self, total_ms: u64, idle_ms: u64) -> AppResult<Vec<u8>> {
        self.read_calls.push((total_ms, idle_ms));
        if let Some(reply) = self.replies.pop_front() {
            return Ok(reply);
        }
        let Some(last) = self.writes.last() else {
            return Ok(vec![]);
        };
        if last.len() == 6 && last[0] == 0x03 && last[1] == 0x02 {
            return Ok(last.clone());
        }
        if last.len() == 390 && last[384] == 0x03 && last[385] == 0x03 {
            return Ok(last[384..390].to_vec());
        }
        Ok(last.clone())
    }
}

fn screens() -> StatusScreens<'static> {
    let full = Box::leak(vec![0u8; 160 * 80 * 2].into_boxed_slice());
    let strip = Box::leak(vec![0u8; 101 * PERCENT_BYTES].into_boxed_slice());
    StatusScreens { initial: full, done: full, percent_strip: strip, waiting: full }
}

#[test]
fn writes_one_image_as_erase_then_100_pages() {
    let image = vec![0x5a; IMAGE_BYTES];
    let flash_image = FlashImage { label: "test", start_page: 3826, page_count: PAGES_PER_IMAGE, bytes: &image };
    let mut port = MockPort::new();
    let mut progress = Vec::new();
    flash_images(&mut port, &[flash_image], |event| progress.push(event)).unwrap();
    assert_eq!(port.writes.len(), 101);
    assert_eq!(port.writes[0], vec![0x03, 0x02, 0x0e, 0xf2, 0x00, 0x64]);
    assert_eq!(&port.writes[1][384..390], &[0x03, 0x03, 0x00, 0x0e, 0xf2, 0x01]);
    assert_eq!(&port.writes[100][384..390], &[0x03, 0x03, 0x00, 0x0f, 0x55, 0x01]);
    assert_eq!(progress.last().unwrap().percent, 100);
}

#[test]
fn writes_variable_sized_assets() {
    let logo = vec![0x5a; PAGE_BYTES * 6];
    let directory = vec![0xa5; PAGE_BYTES];
    let assets = [
        FlashAsset { label: "logo", start_page: 3820, page_count: 6, bytes: &logo },
        FlashAsset { label: "directory", start_page: 4094, page_count: 1, bytes: &directory },
    ];
    let mut port = MockPort::new();
    let mut progress = Vec::new();
    flash_images(&mut port, &assets, |event| progress.push(event)).unwrap();
    assert_eq!(port.writes.len(), 9);
    assert_eq!(port.writes[0], vec![0x03, 0x02, 0x0e, 0xec, 0x00, 0x06]);
    assert_eq!(&port.writes[1][384..390], &[0x03, 0x03, 0x00, 0x0e, 0xec, 0x01]);
    assert_eq!(&port.writes[6][384..390], &[0x03, 0x03, 0x00, 0x0e, 0xf1, 0x01]);
    assert_eq!(port.writes[7], vec![0x03, 0x02, 0x0f, 0xfe, 0x00, 0x01]);
    assert_eq!(&port.writes[8][384..390], &[0x03, 0x03, 0x00, 0x0f, 0xfe, 0x01]);
    assert_eq!(progress.last().unwrap().percent, 100);
    assert_eq!(progress.last().unwrap().total_pages, 7);
}

#[test]
fn progress_reports_each_page_then_done() {
    let logo = vec![0x5a; PAGE_BYTES * 3];
    let assets = [FlashAsset { label: "logo", start_page: 3820, page_count: 3, bytes: &logo }];
    let mut port = MockPort::new();
    let mut progress = Vec::new();
    flash_images(&mut port, &assets, |event| progress.push(event)).unwrap();
    let percents: Vec<u8> = progress.iter().map(|p| p.percent).collect();
    assert_eq!(percents, vec![33, 66, 100, 100]);
    assert_eq!(progress[0].phase, FlashPhase::Write);
    assert_eq!(progress[0].display_message, "写入中 33%");
    assert_eq!(progress[3].phase, FlashPhase::Done);
    assert_eq!(progress[3].display_message, "写入完成");
    assert_eq!(progress[3].current_page, 3);
}

#[test]
fn preview_pages_sends_page_zero_last() {
    let mut port = MockPort::new();
    for page in PREVIEW_PAGES {
        preview_page(&mut port, page).unwrap();
    }
    let photo_packets: Vec<Vec<u8>> =
        port.writes.iter().filter(|packet| packet.starts_with(&[0x02, 0x03, 0x00])).cloned().collect();
    assert_eq!(photo_packets.len(), 4);
    assert_eq!(photo_packets[0], vec![0x02, 0x03, 0x00, 0x00, 0x00, 0x00]);
    assert_eq!(photo_packets[1], vec![0x02, 0x03, 0x00, 0x01, 0x2c, 0x00]);
    assert_eq!(photo_packets[2], vec![0x02, 0x03, 0x00, 0x01, 0xf4, 0x00]);
    assert_eq!(photo_packets[3], vec![0x02, 0x03, 0x00, 0x00, 0x00, 0x00]);
}

#[test]
fn lcd_region_writer_sends_address_and_data_packets() {
    let bytes = vec![0x12; 272];
    let mut port = MockPort::new();
    write_lcd_region(&mut port, 4, 5, 8, 17, &bytes, RetryPolicy::default()).unwrap();
    assert_eq!(port.writes.len(), 5);
    assert_eq!(port.writes[0], vec![0x02, 0x00, 0x00, 0x04, 0x00, 0x05]);
    assert_eq!(port.writes[1], vec![0x02, 0x01, 0x00, 0x08, 0x00, 0x11]);
    assert_eq!(port.writes[2], vec![0x02, 0x03, 0x07, 0x00, 0x00, 0x00]);
    assert_eq!(&port.writes[3][384..390], &[0x02, 0x03, 0x08, 0x01, 0x00, 0x00]);
    assert_eq!(&port.writes[4][384..390], &[0x02, 0x03, 0x08, 0x00, 0x10, 0x00]);
    assert_eq!(
        &port.writes[4][0..24],
        &[
            0x04, 0x00, 0x12, 0x12, 0x12, 0x12, 0x04, 0x01, 0x12, 0x12, 0x12, 0x12, 0x04, 0x02, 0x12, 0x12, 0x12, 0x12,
            0x04, 0x03, 0x12, 0x12, 0x12, 0x12
        ]
    );
    assert_eq!(&port.writes[4][24..30], &[0x04, 0x04, 0xff, 0xff, 0xff, 0xff]);
}

#[test]
fn lcd_region_writer_waits_only_for_lcd_add_ack() {
    let bytes = vec![0x12; 2];
    let mut port = MockPort::new();
    write_lcd_region(&mut port, 4, 5, 1, 1, &bytes, RetryPolicy::default()).unwrap();
    assert_eq!(port.read_calls, vec![(300, 40)]);
}

#[test]
fn lcd_region_writer_rejects_wrong_size_without_writes() {
    let bytes = vec![0x00; 23];
    let mut port = MockPort::new();
    let err = write_lcd_region(&mut port, 0, 0, 3, 4, &bytes, RetryPolicy::default()).unwrap_err();
    assert!(matches!(err, AppError::Protocol(_)));
    assert!(port.writes.is_empty());
    assert_eq!(err, AppError::Protocol("lcd region 3x4 at 0,0 has 23 bytes, expected 24".to_string()));
}

#[test]
fn wrong_size_later_image_causes_zero_writes() {
    let good = vec![0x5a; IMAGE_BYTES];
    let bad = vec![0x5a; IMAGE_BYTES - 1];
    let images = [
        FlashImage { label: "good", start_page: 3826, page_count: PAGES_PER_IMAGE, bytes: &good },
        FlashImage { label: "bad", start_page: 3926, page_count: PAGES_PER_IMAGE, bytes: &bad },
    ];
    let mut port = MockPort::new();
    let err = flash_images(&mut port, &images, |_| {}).unwrap_err();
    assert!(matches!(err, AppError::Asset(_)));
    assert!(port.writes.is_empty());
    assert_eq!(err, AppError::Asset("bad has 25599 bytes, expected 25600".to_string()));
}

#[test]
fn retries_a_failed_write_once_then_succeeds() {
    let image = vec![0x5a; IMAGE_BYTES];
    let flash_image = FlashImage { label: "test", start_page: 3826, page_count: PAGES_PER_IMAGE, bytes: &image };
    let first_page = flash_image.start_page as u32;
    let mut port = MockPort::with_replies(vec![
        erase_flash_pages_packet(flash_image.start_page, PAGES_PER_IMAGE).to_vec(),
        vec![0xde, 0xad],
        expected_write_reply(first_page).to_vec(),
    ]);
    flash_images(&mut port, &[flash_image], |_| {}).unwrap();
    assert_eq!(port.writes.len(), 102);
    assert_eq!(&port.writes[1][384..390], &[0x03, 0x03, 0x00, 0x0e, 0xf2, 0x01]);
    assert_eq!(&port.writes[2][384..390], &[0x03, 0x03, 0x00, 0x0e, 0xf2, 0x01]);
}

#[test]
fn fails_after_exhausting_write_retries() {
    let image = vec![0x5a; IMAGE_BYTES];
    let flash_image = FlashImage { label: "test", start_page: 3826, page_count: PAGES_PER_IMAGE, bytes: &image };
    let mut port = MockPort::with_replies(vec![
        erase_flash_pages_packet(flash_image.start_page, PAGES_PER_IMAGE).to_vec(),
        vec![0xde, 0xad],
        vec![0xbe, 0xef],
        vec![0xfa, 0xce],
    ]);
    let err = flash_images(&mut port, &[flash_image], |_| {}).unwrap_err();
    assert!(matches!(err, AppError::Protocol(_)));
    assert_eq!(port.writes.len(), 4);
    assert_eq!(
        err,
        AppError::Protocol("write page 3826 expected [03, 03, 00, 0E, F2, 01], got [FA, CE]".to_string())
    );
}

#[test]
fn erase_gives_up_after_three_unechoed_attempts() {
    let image = vec![0x5a; PAGE_BYTES];
    let asset = FlashAsset { label: "one", start_page: 10, page_count: 1, bytes: &image };
    let mut port = MockPort::with_replies(vec![vec![], vec![0x01], vec![]]);
    let err = flash_images(&mut port, &[asset], |_| {}).unwrap_err();
    assert_eq!(port.writes.len(), 3);
    assert_eq!(
        err,
        AppError::Protocol("erase pages 10..10 expected [03, 02, 00, 0A, 00, 01], got []".to_string())
    );
}

#[test]
fn screen_status_probe_failure_does_not_fail_flash() {
    let image = vec![0x5a; IMAGE_BYTES];
    let flash_image = FlashImage { label: "test", start_page: 3826, page_count: PAGES_PER_IMAGE, bytes: &image };
    let mut port = MockPort::with_replies(vec![vec![], vec![], vec![0xde, 0xad]]);
    let mut progress = Vec::new();
    let screens = screens();
    flash_images_with_screen_status(&mut port, &[flash_image], |event| progress.push(event), &screens).unwrap();
    assert_eq!(progress.last().unwrap().percent, 100);
    assert!(port.writes.iter().any(|packet| packet == &erase_flash_pages_packet(3826, PAGES_PER_IMAGE).to_vec()));
}

#[test]
fn empty_plan_reports_done_without_touching_the_port() {
    let mut port = MockPort::new();
    let mut events = Vec::new();
    flash_images(&mut port, &[], |progress| events.push(progress)).unwrap();
    assert!(port.writes.is_empty());
    assert!(port.read_calls.is_empty());
    assert_eq!(events.len(), 1);
    assert_eq!(events[0].phase, FlashPhase::Done);
    assert_eq!(events[0].percent, 100);
}

#[test]
fn refused_erase_reports_the_last_reply_after_three_attempts() {
    let image = vec![0x5a; 256];
    let images = [FlashAsset { label: "one", start_page: 10, page_count: 1, bytes: &image }];
    let mut port = MockPort::with_replies(vec![vec![0x01], vec![0x02], vec![0x03]]);
    let err = flash_images(&mut port, &images, |_| {}).unwrap_err();
    assert_eq!(port.writes.len(), 3);
    assert!(port.writes.iter().all(|w| w == &erase_flash_pages_packet(10, 1).to_vec()));
    assert_eq!(port.read_calls, vec![(1200, 40), (1200, 40), (1200, 40)]);
    assert_eq!(
        err,
        AppError::Protocol("erase pages 10..10 expected [03, 02, 00, 0A, 00, 01], got [03]".to_string())
    );
}
