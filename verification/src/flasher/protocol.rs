//! Packets of the MSU2 serial protocol that the flasher sends and expects.

use vstd::prelude::*;

use crate::frame::{addr_byte_hi, addr_byte_lo, addr_byte_mid, addr_hi, addr_lo, addr_mid, build_data_frame, data_frame, hi16, hi_byte, lo16, lo_byte};

verus! {

/// Handshake both sent to and echoed by the screen: `\0MSNCN`.
pub const HANDSHAKE: [u8; 6] = [0x00, 0x4d, 0x53, 0x4e, 0x43, 0x4e];

/// Erases `page_count` flash pages starting at `start_page`; the screen echoes it.
/// The "erase pages" command for `page_count` pages from `start_page`.
pub open spec fn erase_command(start_page: u16, page_count: u16) -> Seq<u8> {
    seq![0x03u8, 0x02, hi_byte(start_page), lo_byte(start_page), hi_byte(page_count), lo_byte(page_count)]
}

pub fn erase_flash_pages_packet(start_page: u16, page_count: u16) -> (r: [u8; 6])
    ensures
        r@ == seq![
            0x03u8,
            0x02,
            hi_byte(start_page),
            lo_byte(start_page),
            hi_byte(page_count),
            lo_byte(page_count),
        ],
{
    let r = [0x03, 0x02, hi16(start_page), lo16(start_page), hi16(page_count), lo16(page_count)];
    assert(r@ =~= seq![
        0x03u8,
        0x02,
        hi_byte(start_page),
        lo_byte(start_page),
        hi_byte(page_count),
        lo_byte(page_count),
    ]);
    r
}

/// The "fast write one page" command that commits a data frame to flash `page`;
/// it is also the reply the screen sends once the page is written.
pub open spec fn page_write_command(page: u32) -> Seq<u8> {
    seq![0x03u8, 0x03, addr_byte_hi(page), addr_byte_mid(page), addr_byte_lo(page), 0x01]
}

/// Streams the 256 bytes of one flash page and commits them to `page`.
pub fn write_flash_page_packet(page: u32, data: &[u8; 256]) -> (r: [u8; 390])
    ensures
        r@ == data_frame(data@, page_write_command(page)),
{
    let footer = [0x03, 0x03, addr_hi(page), addr_mid(page), addr_lo(page), 0x01];
    assert(footer@ =~= page_write_command(page));
    build_data_frame(data, footer)
}

/// Starts a direct LCD write into the current window; the screen echoes it.
pub fn load_lcd_address_packet() -> (r: [u8; 6])
    ensures
        r@ == seq![0x02u8, 0x03, 0x07, 0x00, 0x00, 0x00],
{
    let r = [0x02, 0x03, 0x07, 0x00, 0x00, 0x00];
    assert(r@ =~= seq![0x02u8, 0x03, 0x07, 0x00, 0x00, 0x00]);
    r
}

/// Footer that commits `size` bytes of a data frame to the LCD.
pub open spec fn lcd_data_footer(size: u16) -> Seq<u8> {
    seq![0x02u8, 0x03, 0x08, hi_byte(size), lo_byte(size), 0x00]
}

/// Streams 256 bytes (of which the first `size` are pixels) to the LCD window.
pub fn write_lcd_data_packet(size: u16, data: &[u8; 256]) -> (r: [u8; 390])
    ensures
        r@ == data_frame(data@, lcd_data_footer(size)),
{
    let footer = [0x02, 0x03, 0x08, hi16(size), lo16(size), 0x00];
    assert(footer@ =~= lcd_data_footer(size));
    build_data_frame(data, footer)
}

/// The reply the screen sends after committing flash `page`.
pub fn expected_write_reply(page: u32) -> (r: [u8; 6])
    ensures
        r@ == page_write_command(page),
{
    let r = [0x03, 0x03, addr_hi(page), addr_mid(page), addr_lo(page), 0x01];
    assert(r@ =~= page_write_command(page));
    r
}

/// The "set window corner" command.
pub open spec fn xy_command(x: u16, y: u16) -> Seq<u8> {
    seq![0x02u8, 0x00, hi_byte(x), lo_byte(x), hi_byte(y), lo_byte(y)]
}

/// The "set window size" command.
pub open spec fn size_command(width: u16, height: u16) -> Seq<u8> {
    seq![0x02u8, 0x01, hi_byte(width), lo_byte(width), hi_byte(height), lo_byte(height)]
}

/// The "show stored image" command.
pub open spec fn photo_command(page: u16) -> Seq<u8> {
    seq![0x02u8, 0x03, 0x00, hi_byte(page), lo_byte(page), 0x00]
}

/// Sets the top-left corner of the next drawing window.
pub fn set_xy_packet(x: u16, y: u16) -> (r: [u8; 6])
    ensures
        r@ == seq![0x02u8, 0x00, hi_byte(x), lo_byte(x), hi_byte(y), lo_byte(y)],
{
    let r = [0x02, 0x00, hi16(x), lo16(x), hi16(y), lo16(y)];
    assert(r@ =~= seq![0x02u8, 0x00, hi_byte(x), lo_byte(x), hi_byte(y), lo_byte(y)]);
    r
}

/// Sets the size of the next drawing window.
pub fn set_size_packet(width: u16, height: u16) -> (r: [u8; 6])
    ensures
        r@ == seq![0x02u8, 0x01, hi_byte(width), lo_byte(width), hi_byte(height), lo_byte(height)],
{
    let r = [0x02, 0x01, hi16(width), lo16(width), hi16(height), lo16(height)];
    assert(r@ =~= seq![0x02u8, 0x01, hi_byte(width), lo_byte(width), hi_byte(height), lo_byte(height)]);
    r
}

/// Shows the full-colour image stored at flash `page`.
pub fn show_photo_packet(page: u16) -> (r: [u8; 6])
    ensures
        r@ == seq![0x02u8, 0x03, 0x00, hi_byte(page), lo_byte(page), 0x00],
{
    let r = [0x02, 0x03, 0x00, hi16(page), lo16(page), 0x00];
    assert(r@ =~= seq![0x02u8, 0x03, 0x00, hi_byte(page), lo_byte(page), 0x00]);
    r
}

/// Whether a reply buffer contains the expected (non-empty) byte sequence.
pub fn contains_sequence(haystack: &[u8], needle: &[u8]) -> (r: bool)
    ensures
        r == crate::frame::contains_seq(haystack@, needle@),
{
    crate::frame::contains_sequence(haystack, needle)
}

} // verus!
