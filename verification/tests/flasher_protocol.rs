use msu2_display::flasher::assets::{HOST_IP_BG_PAGE, HOST_PENDING_PAGE};
use msu2_display::flasher::protocol::{
    erase_flash_pages_packet, expected_write_reply, load_lcd_address_packet, set_size_packet, set_xy_packet,
    show_photo_packet, write_flash_page_packet, write_lcd_data_packet, HANDSHAKE,
};

#[test]
fn handshake_matches_verified_bytes() {
    assert_eq!(HANDSHAKE, [0x00, 0x4d, 0x53, 0x4e, 0x43, 0x4e]);
}

#[test]
fn erase_packet_encodes_compact_pending_range() {
    assert_eq!(erase_flash_pages_packet(HOST_PENDING_PAGE, 100), [0x03, 0x02, 0x01, 0x2c, 0x00, 0x64]);
}

#[test]
fn write_page_packet_has_compact_layout_footer() {
    let data = [0x5a; 256];
    let packet = write_flash_page_packet(HOST_IP_BG_PAGE.into(), &data);
    assert_eq!(packet.len(), 390);
    assert_eq!(&packet[0..6], &[0x04, 0x00, 0x5a, 0x5a, 0x5a, 0x5a]);
    assert_eq!(&packet[378..384], &[0x04, 0x3f, 0x5a, 0x5a, 0x5a, 0x5a]);
    assert_eq!(&packet[384..390], &[0x03, 0x03, 0x00, 0x01, 0xf4, 0x01]);
}

#[test]
fn show_photo_page_zero_matches_verified_bytes() {
    assert_eq!(set_xy_packet(0, 0), [0x02, 0x00, 0x00, 0x00, 0x00, 0x00]);
    assert_eq!(set_size_packet(160, 80), [0x02, 0x01, 0x00, 0xa0, 0x00, 0x50]);
    assert_eq!(show_photo_packet(0), [0x02, 0x03, 0x00, 0x00, 0x00, 0x00]);
}

#[test]
fn lcd_direct_write_packets_match_official_demo() {
    assert_eq!(load_lcd_address_packet(), [0x02, 0x03, 0x07, 0x00, 0x00, 0x00]);
    let data = [0x5a; 256];
    let packet = write_lcd_data_packet(16, &data);
    assert_eq!(packet.len(), 390);
    assert_eq!(&packet[0..6], &[0x04, 0x00, 0x5a, 0x5a, 0x5a, 0x5a]);
    assert_eq!(&packet[378..384], &[0x04, 0x3f, 0x5a, 0x5a, 0x5a, 0x5a]);
    assert_eq!(&packet[384..390], &[0x02, 0x03, 0x08, 0x00, 0x10, 0x00]);
}

#[test]
fn write_reply_is_the_commit_command_of_the_page() {
    assert_eq!(expected_write_reply(0x0ef2), [0x03, 0x03, 0x00, 0x0e, 0xf2, 0x01]);
    let packet = write_flash_page_packet(0x0ef2, &[0u8; 256]);
    assert_eq!(&packet[384..390], &expected_write_reply(0x0ef2));
}

#[test]
fn data_frame_carries_every_byte_in_order() {
    let mut data = [0u8; 256];
    for (i, b) in data.iter_mut().enumerate() {
        *b = i as u8;
    }
    let packet = write_lcd_data_packet(256, &data);
    for g in 0..64 {
        assert_eq!(packet[6 * g], 0x04);
        assert_eq!(packet[6 * g + 1], g as u8);
        assert_eq!(&packet[6 * g + 2..6 * g + 6], &data[4 * g..4 * g + 4]);
    }
    assert_eq!(&packet[384..390], &[0x02, 0x03, 0x08, 0x01, 0x00, 0x00]);
}
