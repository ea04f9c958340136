use msu2_display::host::display::{DigitGlyph, DisplayRenderer, DotGlyph, RGB565_BLACK};
use msu2_display::host::ipv4::Ipv4Addr;
use msu2_display::host::protocol::{
    load_lcd_address_packet, set_color_packet, set_size_packet, set_xy_packet, show_photo_packet,
    DHCP_FAILED_PAGE, IP_BACKGROUND_PAGE, PENDING_PAGE, SCREEN_HEIGHT, SCREEN_WIDTH,
};

#[test]
fn page_state_commands_show_expected_pages() {
    assert_eq!(DisplayRenderer::pending().last().unwrap().bytes, show_photo_packet(PENDING_PAGE).to_vec());
    assert_eq!(DisplayRenderer::dhcp_failed().last().unwrap().bytes, show_photo_packet(DHCP_FAILED_PAGE).to_vec());
}

#[test]
fn page_state_commands_set_fullscreen_window_before_showing_page() {
    let pending = DisplayRenderer::pending();
    assert_eq!(pending.len(), 3);
    assert_eq!(pending[0].bytes, set_xy_packet(0, 0).to_vec());
    assert_eq!(pending[1].bytes, set_size_packet(SCREEN_WIDTH, SCREEN_HEIGHT).to_vec());
    assert_eq!(pending[2].bytes, show_photo_packet(PENDING_PAGE).to_vec());

    let dhcp_failed = DisplayRenderer::dhcp_failed();
    assert_eq!(dhcp_failed.len(), 3);
    assert_eq!(dhcp_failed[0].bytes, set_xy_packet(0, 0).to_vec());
    assert_eq!(dhcp_failed[1].bytes, set_size_packet(SCREEN_WIDTH, SCREEN_HEIGHT).to_vec());
    assert_eq!(dhcp_failed[2].bytes, show_photo_packet(DHCP_FAILED_PAGE).to_vec());
}

#[test]
fn max_ip_layout_is_centered_in_two_rows() {
    let layout = DisplayRenderer::layout_ip(Ipv4Addr::new(255, 255, 255, 255));
    assert_eq!(layout.digits.len(), 12);
    assert_eq!(layout.dots.len(), 2);
    assert_eq!(layout.digits[0], DigitGlyph { x: 4, y: 3, digit: 2 });
    assert_eq!(layout.digits[5], DigitGlyph { x: 132, y: 3, digit: 5 });
    assert_eq!(layout.digits[6], DigitGlyph { x: 4, y: 44, digit: 2 });
    assert_eq!(layout.dots[0], DotGlyph { x: 77, y: 28 });
    assert_eq!(layout.dots[1], DotGlyph { x: 77, y: 69 });
}

#[test]
fn short_ip_rows_are_independently_centered() {
    let layout = DisplayRenderer::layout_ip(Ipv4Addr::new(10, 0, 1, 5));
    assert_eq!(layout.digits[0].x, 40);
    assert_eq!(layout.digits[2].x, 96);
    assert_eq!(layout.digits[3].x, 52);
    assert_eq!(layout.digits[4].x, 84);
    assert_eq!(layout.dots[0].x, 89);
    assert_eq!(layout.dots[1].x, 77);
}

#[test]
fn ip_render_starts_with_background_and_loads_ram_mix() {
    let writes = DisplayRenderer::ip(Ipv4Addr::new(192, 168, 1, 204));
    assert_eq!(writes[0].bytes, show_photo_packet(IP_BACKGROUND_PAGE).to_vec());
    assert!(writes.iter().any(|write| write.bytes == [0x02, 0x03, 0x0d, 0x00, 0x00, 0x00]));
    assert!(writes.iter().any(|write| write.bytes == [0x02, 0x03, 0x11, 0x01, 0xf4, 0x00]));
}

#[test]
fn ip_render_uses_status_text_color_for_digits_and_dots() {
    const STATUS_TEXT_RGB565: u16 = 0x5fd0;
    let writes = DisplayRenderer::ip(Ipv4Addr::new(10, 0, 1, 5));
    assert!(writes.iter().any(|write| write.bytes == set_color_packet(STATUS_TEXT_RGB565, RGB565_BLACK).to_vec()));
    let dot_write = writes.iter().find(|write| write.bytes.len() == 390).expect("expected direct dot pixel write");
    assert_eq!(
        &dot_write.bytes[2..4],
        &STATUS_TEXT_RGB565.to_be_bytes(),
        "dot pixels should use the same visible text color as the RAM digit overlay"
    );
}

#[test]
fn keepalive_dot_stays_within_screen_bounds() {
    let writes = DisplayRenderer::keepalive();
    assert_eq!(writes[0].bytes, set_xy_packet(159, 79).to_vec());
    assert_eq!(writes[1].bytes, set_size_packet(1, 1).to_vec());
    assert!(159 < SCREEN_WIDTH);
    assert!(79 < SCREEN_HEIGHT);
}

#[test]
fn keepalive_writes_only_one_pixel() {
    let writes = DisplayRenderer::keepalive();
    assert_eq!(writes[1].bytes, set_size_packet(1, 1).to_vec());
    let lcd_write = writes.iter().find(|write| write.bytes.len() == 390).expect("expected lcd data write");
    assert_eq!(&lcd_write.bytes[384..390], &[0x02, 0x03, 0x08, 0x00, 0x02, 0x00]);
    let mut pixel_bytes = Vec::new();
    for chunk in lcd_write.bytes[..384].chunks_exact(6) {
        pixel_bytes.extend_from_slice(&chunk[2..6]);
    }
    assert_eq!(&pixel_bytes[0..2], &[0x00, 0x00]);
    assert!(pixel_bytes[2..].iter().all(|byte| *byte == 0));
}

#[test]
fn qr_render_writes_full_screen_lcd_region() {
    let writes = DisplayRenderer::qr(Ipv4Addr::new(10, 0, 0, 5), "http://{ip}/").unwrap();
    assert_eq!(writes[0].bytes, set_xy_packet(0, 0).to_vec());
    assert_eq!(writes[1].bytes, set_size_packet(SCREEN_WIDTH, SCREEN_HEIGHT).to_vec());
    assert_eq!(writes[2].bytes, load_lcd_address_packet().to_vec());
    assert_eq!(writes.len(), 103);
}

#[test]
fn qr_keepalive_uses_white_corner_pixel() {
    let writes = DisplayRenderer::keepalive_white();
    let lcd_write = writes.iter().find(|write| write.bytes.len() == 390).expect("expected lcd data write");
    assert_eq!(&lcd_write.bytes[2..4], &[0xff, 0xff]);
}

#[test]
fn ip_render_draws_one_glyph_per_digit_and_two_dots() {
    let writes = DisplayRenderer::ip(Ipv4Addr::new(192, 168, 1, 204));
    let glyphs = writes.iter().filter(|w| w.bytes.len() == 6 && w.bytes[0..3] == [0x02, 0x03, 0x0f]).count();
    assert_eq!(glyphs, 3 + 3 + 1 + 3);
    let dots = writes.iter().filter(|w| w.bytes.len() == 390).count();
    assert_eq!(dots, 2);
}

#[test]
fn ipv4_text_is_dotted_decimal() {
    assert_eq!(Ipv4Addr::new(192, 168, 1, 204).to_string(), "192.168.1.204");
    assert_eq!(Ipv4Addr::new(0, 0, 0, 0).to_string(), "0.0.0.0");
    assert_eq!(Ipv4Addr::new(10, 20, 100, 9).to_string(), "10.20.100.9");
}
