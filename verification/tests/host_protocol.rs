use msu2_display::flasher::protocol::contains_sequence as flasher_contains;
use msu2_display::host::protocol::contains_sequence as host_contains;
use msu2_display::host::protocol::{
    add_ram_masked_packet, load_lcd_address_packet, load_ram_mix_show_packet, ram_init_packet, set_size_packet,
    set_xy_packet, show_photo_packet, write_lcd_data_packet, DHCP_FAILED_PAGE, HANDSHAKE, IP_BACKGROUND_PAGE,
    PENDING_PAGE,
};

#[test]
fn base_packets_match_verified_protocol() {
    assert_eq!(HANDSHAKE, [0x00, 0x4d, 0x53, 0x4e, 0x43, 0x4e]);
    assert_eq!(set_xy_packet(0, 0), [0x02, 0x00, 0x00, 0x00, 0x00, 0x00]);
    assert_eq!(set_size_packet(160, 80), [0x02, 0x01, 0x00, 0xa0, 0x00, 0x50]);
    assert_eq!(show_photo_packet(IP_BACKGROUND_PAGE), [0x02, 0x03, 0x00, 0x01, 0xf4, 0x00]);
}

#[test]
fn official_digit_ram_packets_match_hardware_probe() {
    assert_eq!(ram_init_packet(0), [0x02, 0x03, 0x0d, 0x00, 0x00, 0x00]);
    assert_eq!(add_ram_masked_packet((4026 + 5) * 256), [0x02, 0x03, 0x0f, 0x0f, 0xbf, 0x00]);
    assert_eq!(load_ram_mix_show_packet(IP_BACKGROUND_PAGE), [0x02, 0x03, 0x11, 0x01, 0xf4, 0x00]);
}

#[test]
fn compact_layout_page_packets_match_expected_bytes() {
    assert_eq!(show_photo_packet(PENDING_PAGE), [0x02, 0x03, 0x00, 0x01, 0x2c, 0x00]);
    assert_eq!(show_photo_packet(DHCP_FAILED_PAGE), [0x02, 0x03, 0x00, 0x01, 0x90, 0x00]);
    assert_eq!(show_photo_packet(IP_BACKGROUND_PAGE), [0x02, 0x03, 0x00, 0x01, 0xf4, 0x00]);
    assert_eq!(load_ram_mix_show_packet(IP_BACKGROUND_PAGE), [0x02, 0x03, 0x11, 0x01, 0xf4, 0x00]);
}

#[test]
fn lcd_direct_write_packet_matches_flasher() {
    assert_eq!(load_lcd_address_packet(), [0x02, 0x03, 0x07, 0x00, 0x00, 0x00]);
    let data = [0x5a; 256];
    let packet = write_lcd_data_packet(16, &data);
    assert_eq!(packet.len(), 390);
    assert_eq!(&packet[0..6], &[0x04, 0x00, 0x5a, 0x5a, 0x5a, 0x5a]);
    assert_eq!(&packet[384..390], &[0x02, 0x03, 0x08, 0x00, 0x10, 0x00]);
}

#[test]
fn protocol_contains_sequence_finds_reply_inside_buffer() {
    assert!(host_contains(&[0xaa, 0x00, 0x4d, 0x53, 0x4e, 0x43, 0x4e, 0xbb], &HANDSHAKE));
    assert!(!host_contains(&[0x00, 0x4d, 0x53], &HANDSHAKE));

    assert!(flasher_contains(
        &[0xaa, 0x03, 0x03, 0x00, 0x0f, 0x56, 0x01, 0xbb],
        &[0x03, 0x03, 0x00, 0x0f, 0x56, 0x01],
    ));
    assert!(!flasher_contains(&[0x03, 0x03, 0x00], &[0x03, 0x03, 0x00, 0x0f]));
}

#[test]
fn empty_needle_is_never_found() {
    assert!(!host_contains(&[0x01, 0x02], &[]));
    assert!(!host_contains(&[], &[0x01]));
}
