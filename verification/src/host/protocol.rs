//! Packets of the MSU2 serial protocol that the host daemon sends.

use vstd::prelude::*;

use crate::frame::{addr_hi, addr_lo, addr_mid, addr_byte_hi, addr_byte_lo, addr_byte_mid, build_data_frame, data_frame, hi16, hi_byte, lo16, lo_byte};

verus! {

/// Handshake both sent to and echoed by the screen: `\0MSNCN`.
pub const HANDSHAKE: [u8; 6] = [0x00, 0x4d, 0x53, 0x4e, 0x43, 0x4e];

pub const SCREEN_WIDTH: u16 = 160;

pub const SCREEN_HEIGHT: u16 = 80;

pub const DHCP_FAILED_PAGE: u16 = 400;

pub const PENDING_PAGE: u16 = 300;

pub const IP_BACKGROUND_PAGE: u16 = 500;

pub const DIGIT_RESOURCE_PAGE: u16 = 4026;

/// `02 00`: window origin.
pub open spec fn xy_cmd(x: u16, y: u16) -> Seq<u8> {
    seq![0x02u8, 0x00, hi_byte(x), lo_byte(x), hi_byte(y), lo_byte(y)]
}

/// `02 01`: window size.
pub open spec fn size_cmd(width: u16, height: u16) -> Seq<u8> {
    seq![0x02u8, 0x01, hi_byte(width), lo_byte(width), hi_byte(height), lo_byte(height)]
}

/// `02 02`: overlay colours.
pub open spec fn color_cmd(foreground: u16, background: u16) -> Seq<u8> {
    seq![0x02u8, 0x02, hi_byte(foreground), lo_byte(foreground), hi_byte(background), lo_byte(background)]
}

/// `02 03 00`: show a full-colour flash image.
pub open spec fn photo_cmd(page: u16) -> Seq<u8> {
    seq![0x02u8, 0x03, 0x00, hi_byte(page), lo_byte(page), 0x00]
}

/// `02 03 0d`: clear the overlay RAM.
pub open spec fn ram_init_cmd(fill: u8) -> Seq<u8> {
    seq![0x02u8, 0x03, 0x0d, fill, 0x00, 0x00]
}

/// `02 03 0f`: add a monochrome glyph to the overlay RAM.
pub open spec fn add_ram_masked_cmd(address: u32) -> Seq<u8> {
    seq![0x02u8, 0x03, 0x0f, addr_byte_hi(address), addr_byte_mid(address), addr_byte_lo(address)]
}

/// `02 03 11`: mix the overlay over a background image and show it.
pub open spec fn ram_mix_show_cmd(background_page: u16) -> Seq<u8> {
    let address = (background_page as int * 256) as u32;
    seq![0x02u8, 0x03, 0x11, addr_byte_hi(address), addr_byte_mid(address), addr_byte_lo(address)]
}

/// `02 03 07`: start a direct LCD write.
pub open spec fn lcd_address_cmd() -> Seq<u8> {
    seq![0x02u8, 0x03, 0x07, 0x00, 0x00, 0x00]
}

/// Sets the top-left corner of the next drawing window.
pub fn set_xy_packet(x: u16, y: u16) -> (r: [u8; 6])
    ensures
        r@ == xy_cmd(x, y),
{
    let r = [0x02, 0x00, hi16(x), lo16(x), hi16(y), lo16(y)];
    assert(r@ =~= seq![0x02u8, 0x00, hi_byte(x), lo_byte(x), hi_byte(y), lo_byte(y)]);
    r
}

/// Sets the size of the next drawing window.
pub fn set_size_packet(width: u16, height: u16) -> (r: [u8; 6])
    ensures
        r@ == size_cmd(width, height),
{
    let r = [0x02, 0x01, hi16(width), lo16(width), hi16(height), lo16(height)];
    assert(r@ =~= seq![0x02u8, 0x01, hi_byte(width), lo_byte(width), hi_byte(height), lo_byte(height)]);
    r
}

/// Sets the foreground and background RGB565 colours for monochrome overlays.
pub fn set_color_packet(foreground: u16, background: u16) -> (r: [u8; 6])
    ensures
        r@ == color_cmd(foreground, background),
{
    let r = [0x02, 0x02, hi16(foreground), lo16(foreground), hi16(background), lo16(background)];
    assert(r@ =~= seq![
        0x02u8,
        0x02,
        hi_byte(foreground),
        lo_byte(foreground),
        hi_byte(background),
        lo_byte(background),
    ]);
    r
}

/// Shows the full-colour image stored at flash `page`.
pub fn show_photo_packet(page: u16) -> (r: [u8; 6])
    ensures
        r@ == photo_cmd(page),
{
    let r = [0x02, 0x03, 0x00, hi16(page), lo16(page), 0x00];
    assert(r@ =~= seq![0x02u8, 0x03, 0x00, hi_byte(page), lo_byte(page), 0x00]);
    r
}

/// Clears the overlay RAM to `fill`.
pub fn ram_init_packet(fill: u8) -> (r: [u8; 6])
    ensures
        r@ == ram_init_cmd(fill),
{
    let r = [0x02, 0x03, 0x0d, fill, 0x00, 0x00];
    assert(r@ =~= seq![0x02u8, 0x03, 0x0d, fill, 0x00, 0x00]);
    r
}

/// Adds the monochrome glyph stored at flash byte `address` to the overlay RAM.
pub fn add_ram_masked_packet(address: u32) -> (r: [u8; 6])
    ensures
        r@ == add_ram_masked_cmd(address),
{
    let r = [0x02, 0x03, 0x0f, addr_hi(address), addr_mid(address), addr_lo(address)];
    assert(r@ =~= seq![0x02u8, 0x03, 0x0f, addr_byte_hi(address), addr_byte_mid(address), addr_byte_lo(address)]);
    r
}

/// Mixes the overlay RAM over the background image at `background_page` and shows it.
pub fn load_ram_mix_show_packet(background_page: u16) -> (r: [u8; 6])
    ensures
        r@ == ram_mix_show_cmd(background_page),
{
    let address = background_page as u32 * 256;
    let r = [0x02, 0x03, 0x11, addr_hi(address), addr_mid(address), addr_lo(address)];
    assert(r@ =~= seq![0x02u8, 0x03, 0x11, addr_byte_hi(address), addr_byte_mid(address), addr_byte_lo(address)]);
    r
}

/// Starts a direct LCD write into the current window; the screen echoes it.
pub fn load_lcd_address_packet() -> (r: [u8; 6])
    ensures
        r@ == lcd_address_cmd(),
{
    let r = [0x02, 0x03, 0x07, 0x00, 0x00, 0x00];
    assert(r@ =~= seq![0x02u8, 0x03, 0x07, 0x00, 0x00, 0x00]);
    r
}

/// Footer that commits `size` bytes of a data frame to the LCD.
pub open spec fn lcd_data_footer(size: u16) -> Seq<u8> {
    seq![0x02u8, 0x03, 0x08, hi_byte(size), lo_byte(size), 0x00]
}

/// Streams 256 bytes (of which the first `size` are pixels) to the LCD window.
pub fn write_lcd_data_packet(size: u16, data: &[u8; 256]) -> (r: [u8; 390])
    ensures
        r@ == data_frame(data@, lcd_data_footer(size)),
{
    let footer = [0x02, 0x03, 0x08, hi16(size), lo16(size), 0x00];
    assert(footer@ =~= lcd_data_footer(size));
    build_data_frame(data, footer)
}

/// Whether a reply buffer contains the expected (non-empty) byte sequence.
pub fn contains_sequence(haystack: &[u8], needle: &[u8]) -> (r: bool)
    ensures
        r == crate::frame::contains_seq(haystack@, needle@),
{
    crate::frame::contains_sequence(haystack, needle)
}

} // verus!
