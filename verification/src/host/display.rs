//! What the host daemon writes to the screen for each display state.

use vstd::prelude::*;

use crate::frame::{data_frame, hi_byte, lo_byte};
use crate::host::ipv4::{dec_digits, decimal_digits, Ipv4Addr};
use crate::host::qr_display::{qr_render_result, render_qr_rgb565be};
use crate::host::protocol::{
    add_ram_masked_cmd, add_ram_masked_packet, color_cmd, lcd_address_cmd, lcd_data_footer,
    load_lcd_address_packet, load_ram_mix_show_packet, photo_cmd, ram_init_cmd, ram_init_packet,
    ram_mix_show_cmd, set_color_packet, set_size_packet, set_xy_packet, show_photo_packet, size_cmd,
    write_lcd_data_packet, xy_cmd, DHCP_FAILED_PAGE, DIGIT_RESOURCE_PAGE, IP_BACKGROUND_PAGE,
    PENDING_PAGE,
};

verus! {

/// One serial write, and whether the screen echoes it back.
#[derive(Debug, Clone, PartialEq, Eq)]
pub struct WireWrite {
    pub bytes: Vec<u8>,
    pub wait_for_echo: bool,
}

impl View for WireWrite {
    type V = (Seq<u8>, bool);

    open spec fn view(&self) -> (Seq<u8>, bool) {
        (self.bytes@, self.wait_for_echo)
    }
}

/// The byte and echo view of a list of writes.
pub open spec fn wire_view(writes: Seq<WireWrite>) -> Seq<(Seq<u8>, bool)> {
    writes.map_values(|w: WireWrite| w@)
}

/// A digit of the RAM font placed at `(x, y)`.
#[derive(Debug, Clone, Copy, PartialEq, Eq, Structural)]
pub struct DigitGlyph {
    pub x: u16,
    pub y: u16,
    pub digit: u8,
}

/// A dot drawn directly to the LCD at `(x, y)`.
#[derive(Debug, Clone, Copy, PartialEq, Eq, Structural)]
pub struct DotGlyph {
    pub x: u16,
    pub y: u16,
}

/// Where each character of a two-row IPv4 address goes.
#[derive(Debug, Clone, PartialEq, Eq)]
pub struct IpLayout {
    pub digits: Vec<DigitGlyph>,
    pub dots: Vec<DotGlyph>,
}

pub struct DisplayRenderer;

pub const DIGIT_WIDTH: u16 = 24;

pub const DIGIT_HEIGHT: u16 = 33;

pub const DOT_SLOT_WIDTH: u16 = 8;

pub const DOT_SIZE: u16 = 5;

pub const ROW_GAP: u16 = 8;

pub const SCREEN_WIDTH: u16 = 160;

pub const SCREEN_HEIGHT: u16 = 80;

pub const RGB565_TEXT: u16 = 0x5fd0;

pub const RGB565_BLACK: u16 = 0x0000;

pub const RGB565_WHITE: u16 = 0xffff;

pub const KEEPALIVE_X: u16 = 159;

pub const KEEPALIVE_Y: u16 = 79;

/// Top of the first row: the two rows and the gap are centred vertically.
pub open spec fn first_row_y() -> int {
    (SCREEN_HEIGHT - (DIGIT_HEIGHT * 2 + ROW_GAP)) / 2
}

/// Left edge of a row `left.right`, centred horizontally.
pub open spec fn row_start_x(left: u8, right: u8) -> int {
    let width = DIGIT_WIDTH * (dec_digits(left).len() + dec_digits(right).len()) + DOT_SLOT_WIDTH;
    (SCREEN_WIDTH - width) / 2
}

/// The digit glyphs of the row `left.right` drawn at height `y`.
pub open spec fn row_digits(left: u8, right: u8, y: int) -> Seq<DigitGlyph> {
    let dl = dec_digits(left);
    let dr = dec_digits(right);
    let x0 = row_start_x(left, right);
    Seq::new(
        dl.len() + dr.len(),
        |i: int|
            if i < dl.len() {
                DigitGlyph { x: (x0 + DIGIT_WIDTH * i) as u16, y: y as u16, digit: dl[i] }
            } else {
                DigitGlyph {
                    x: (x0 + DIGIT_WIDTH * i + DOT_SLOT_WIDTH) as u16,
                    y: y as u16,
                    digit: dr[i - dl.len()],
                }
            },
    )
}

/// The dot of the row `left.right` drawn at height `y`: centred in its slot,
/// sitting 3 pixels above the bottom of the digits.
pub open spec fn row_dot(left: u8, right: u8, y: int) -> DotGlyph {
    DotGlyph {
        x: (row_start_x(left, right) + DIGIT_WIDTH * dec_digits(left).len() + (DOT_SLOT_WIDTH
            - DOT_SIZE) / 2) as u16,
        y: (y + DIGIT_HEIGHT - DOT_SIZE - 3) as u16,
    }
}

/// The second row starts one digit height and one gap below the first.
pub open spec fn second_row_y() -> int {
    first_row_y() + DIGIT_HEIGHT + ROW_GAP
}

/// Layout of `a.b` over `c.d`.
pub open spec fn layout_digits(ip: Ipv4Addr) -> Seq<DigitGlyph> {
    row_digits(ip.0, ip.1, first_row_y()) + row_digits(ip.2, ip.3, second_row_y())
}

pub open spec fn layout_dots(ip: Ipv4Addr) -> Seq<DotGlyph> {
    seq![row_dot(ip.0, ip.1, first_row_y()), row_dot(ip.2, ip.3, second_row_y())]
}

/// A write that is not echoed.
pub open spec fn plain(bytes: Seq<u8>) -> (Seq<u8>, bool) {
    (bytes, false)
}

/// The full-screen window followed by a flash image.
pub open spec fn page_writes(page: u16) -> Seq<(Seq<u8>, bool)> {
    seq![plain(xy_cmd(0, 0)), plain(size_cmd(SCREEN_WIDTH, SCREEN_HEIGHT)), plain(photo_cmd(page))]
}

/// 256 data bytes holding one big-endian RGB565 pixel, zero elsewhere.
pub open spec fn pixel_page(color: u16) -> Seq<u8> {
    Seq::new(256, |i: int| if i == 0 { hi_byte(color) } else if i == 1 { lo_byte(color) } else { 0u8 })
}

/// A one-pixel window at `(x, y)` painted `color`.
pub open spec fn pixel_writes_spec(x: u16, y: u16, color: u16) -> Seq<(Seq<u8>, bool)> {
    seq![
        plain(xy_cmd(x, y)),
        plain(size_cmd(1, 1)),
        (lcd_address_cmd(), true),
        plain(data_frame(pixel_page(color), lcd_data_footer(2))),
    ]
}

/// 256 data bytes holding the 5x5 dot in the text colour, zero elsewhere.
pub open spec fn dot_page() -> Seq<u8> {
    Seq::new(
        256,
        |i: int|
            if i < 50 {
                if i % 2 == 0 {
                    hi_byte(RGB565_TEXT)
                } else {
                    lo_byte(RGB565_TEXT)
                }
            } else {
                0u8
            },
    )
}

/// A 5x5 window at the dot's position painted in the text colour.
pub open spec fn dot_writes_spec(dot: DotGlyph) -> Seq<(Seq<u8>, bool)> {
    seq![
        plain(xy_cmd(dot.x, dot.y)),
        plain(size_cmd(DOT_SIZE, DOT_SIZE)),
        (lcd_address_cmd(), true),
        plain(data_frame(dot_page(), lcd_data_footer(50))),
    ]
}

/// Flash byte address of a digit's monochrome glyph.
pub open spec fn digit_address(digit: u8) -> u32 {
    ((DIGIT_RESOURCE_PAGE as int + digit as int) * 256) as u32
}

/// Placing one RAM-font digit.
pub open spec fn glyph_writes(glyph: DigitGlyph) -> Seq<(Seq<u8>, bool)> {
    seq![
        plain(xy_cmd(glyph.x, glyph.y)),
        plain(size_cmd(DIGIT_WIDTH, DIGIT_HEIGHT)),
        plain(add_ram_masked_cmd(digit_address(glyph.digit))),
    ]
}

/// Placing every digit, in order.
pub open spec fn glyphs_writes(glyphs: Seq<DigitGlyph>) -> Seq<(Seq<u8>, bool)>
    decreases glyphs.len(),
{
    if glyphs.len() == 0 {
        seq![]
    } else {
        glyphs_writes(glyphs.drop_last()) + glyph_writes(glyphs.last())
    }
}

/// The text-mode IP screen: background, digits through the RAM overlay, then the dots.
pub open spec fn ip_writes(ip: Ipv4Addr) -> Seq<(Seq<u8>, bool)> {
    let dots = layout_dots(ip);
    seq![plain(photo_cmd(IP_BACKGROUND_PAGE)), plain(ram_init_cmd(0))] + glyphs_writes(
        layout_digits(ip),
    ) + seq![plain(color_cmd(RGB565_TEXT, RGB565_BLACK)), plain(ram_mix_show_cmd(IP_BACKGROUND_PAGE))]
        + dot_writes_spec(dots[0]) + dot_writes_spec(dots[1])
}

/// Bytes `[256k, 256k + 256)` of `bytes`, zero-padded to 256.
pub open spec fn chunk_page(bytes: Seq<u8>, k: int) -> Seq<u8> {
    Seq::new(256, |i: int| if 256 * k + i < bytes.len() { bytes[256 * k + i] } else { 0u8 })
}

/// Length of chunk `k` when `bytes` is cut into 256-byte pieces.
pub open spec fn chunk_len(bytes: Seq<u8>, k: int) -> int {
    if bytes.len() - 256 * k >= 256 {
        256
    } else {
        bytes.len() - 256 * k
    }
}

pub open spec fn chunk_count(len: int) -> int {
    (len + 255) / 256
}

/// A window at `(x, y)` of `width` by `height` filled with `bytes` in 256-byte frames.
pub open spec fn region_writes(x: u16, y: u16, width: u16, height: u16, bytes: Seq<u8>) -> Seq<(Seq<u8>, bool)> {
    seq![plain(xy_cmd(x, y)), plain(size_cmd(width, height)), (lcd_address_cmd(), true)] + Seq::new(
        chunk_count(bytes.len() as int) as nat,
        |k: int| plain(data_frame(chunk_page(bytes, k), lcd_data_footer(chunk_len(bytes, k) as u16))),
    )
}

fn packet(bytes: [u8; 6], wait_for_echo: bool) -> (r: WireWrite)
    ensures
        r@ == (bytes@, wait_for_echo),
{
    WireWrite { bytes: vstd::slice::slice_to_vec(&bytes), wait_for_echo }
}

fn frame_write(bytes: [u8; 390]) -> (r: WireWrite)
    ensures
        r@ == (bytes@, false),
{
    WireWrite { bytes: vstd::slice::slice_to_vec(&bytes), wait_for_echo: false }
}

fn full_screen_page(page: u16) -> (r: Vec<WireWrite>)
    ensures
        wire_view(r@) == page_writes(page),
{
    let r = vec![
        packet(set_xy_packet(0, 0), false),
        packet(set_size_packet(SCREEN_WIDTH, SCREEN_HEIGHT), false),
        packet(show_photo_packet(page), false),
    ];
    assert(wire_view(r@) =~= page_writes(page));
    r
}

fn pixel_writes(x: u16, y: u16, color: u16) -> (r: Vec<WireWrite>)
    ensures
        wire_view(r@) == pixel_writes_spec(x, y, color),
{
    let mut pixel_bytes = [0u8; 256];
    pixel_bytes[0] = crate::frame::hi16(color);
    pixel_bytes[1] = crate::frame::lo16(color);
    assert(pixel_bytes@ =~= pixel_page(color));
    let r = vec![
        packet(set_xy_packet(x, y), false),
        packet(set_size_packet(1, 1), false),
        packet(load_lcd_address_packet(), true),
        frame_write(write_lcd_data_packet(2, &pixel_bytes)),
    ];
    assert(wire_view(r@) =~= pixel_writes_spec(x, y, color));
    r
}

fn dot_writes(dot: DotGlyph) -> (r: Vec<WireWrite>)
    ensures
        wire_view(r@) == dot_writes_spec(dot),
{
    let mut dot_bytes = [0u8; 256];
    let hi = crate::frame::hi16(RGB565_TEXT);
    let lo = crate::frame::lo16(RGB565_TEXT);
    let mut i: usize = 0;
    while i < 25
        invariant
            i <= 25,
            hi == hi_byte(RGB565_TEXT),
            lo == lo_byte(RGB565_TEXT),
            dot_bytes@.len() == 256,
            forall|j: int| 0 <= j < 2 * i ==> #[trigger] dot_bytes@[j] == dot_page()[j],
            forall|j: int| 2 * i <= j < 256 ==> #[trigger] dot_bytes@[j] == 0u8,
        decreases 25 - i,
    {
        dot_bytes[2 * i] = hi;
        dot_bytes[2 * i + 1] = lo;
        i = i + 1;
    }
    assert(dot_bytes@ =~= dot_page());
    let r = vec![
        packet(set_xy_packet(dot.x, dot.y), false),
        packet(set_size_packet(DOT_SIZE, DOT_SIZE), false),
        packet(load_lcd_address_packet(), true),
        frame_write(write_lcd_data_packet(DOT_SIZE * DOT_SIZE * 2, &dot_bytes)),
    ];
    assert(wire_view(r@) =~= dot_writes_spec(dot));
    r
}

/// Appends `more` to `writes`.
fn extend_writes(writes: &mut Vec<WireWrite>, more: Vec<WireWrite>)
    ensures
        wire_view(final(writes)@) == wire_view(old(writes)@) + wire_view(more@),
{
    let mut more = more;
    let ghost start = writes@;
    let ghost all = more@;
    writes.append(&mut more);
    assert(wire_view(writes@) =~= wire_view(start) + wire_view(all));
}

/// Cuts `bytes` into 256-byte LCD data frames behind a window at `(x, y)`.
fn lcd_region_writes(x: u16, y: u16, width: u16, height: u16, bytes: &[u8]) -> (r: Vec<WireWrite>)
    requires
        bytes@.len() == width as int * height as int * 2,
    ensures
        wire_view(r@) == region_writes(x, y, width, height, bytes@),
{
    let mut writes = vec![
        packet(set_xy_packet(x, y), false),
        packet(set_size_packet(width, height), false),
        packet(load_lcd_address_packet(), true),
    ];
    let ghost head = seq![plain(xy_cmd(x, y)), plain(size_cmd(width, height)), (lcd_address_cmd(), true)];
    assert(wire_view(writes@) =~= head);
    let ghost frames = Seq::new(
        chunk_count(bytes@.len() as int) as nat,
        |k: int| plain(data_frame(chunk_page(bytes@, k), lcd_data_footer(chunk_len(bytes@, k) as u16))),
    );
    let n = bytes.len();
    let mut start: usize = 0;
    let mut k: usize = 0;
    while start < n
        invariant
            n == bytes@.len(),
            start <= n,
            start < n ==> start == 256 * k,
            start == n ==> k == chunk_count(n as int),
            frames.len() == chunk_count(n as int),
            frames == Seq::new(
                chunk_count(bytes@.len() as int) as nat,
                |k: int| plain(data_frame(chunk_page(bytes@, k), lcd_data_footer(chunk_len(bytes@, k) as u16))),
            ),
            wire_view(writes@) == head + frames.subrange(0, k as int),
        decreases n + 256 - start,
    {
        let remaining = n - start;
        let len: usize = if remaining >= 256 { 256 } else { remaining };
        assert(k < chunk_count(n as int)) by (nonlinear_arith)
            requires
                start == 256 * k,
                start < n,
        ;
        assert(start + len >= n ==> k + 1 == chunk_count(n as int)) by (nonlinear_arith)
            requires
                start == 256 * k,
                start < n,
                len <= 256,
                len == 256 || start + len == n,
        ;
        let mut page = [0u8; 256];
        let mut i: usize = 0;
        while i < len
            invariant
                len <= 256,
                start + len <= n,
                n == bytes@.len(),
                i <= len,
                page@.len() == 256,
                forall|j: int| 0 <= j < i ==> #[trigger] page@[j] == bytes@[start + j],
                forall|j: int| i <= j < 256 ==> #[trigger] page@[j] == 0u8,
            decreases len - i,
        {
            page[i] = bytes[start + i];
            i = i + 1;
        }
        assert(page@ =~= chunk_page(bytes@, k as int));
        assert(chunk_len(bytes@, k as int) == len as int);
        let ghost before = writes@;
        let w = frame_write(write_lcd_data_packet(len as u16, &page));
        assert(w@ == frames[k as int]);
        writes.push(w);
        assert(wire_view(writes@) =~= wire_view(before).push(w@));
        assert(frames.subrange(0, k + 1) =~= frames.subrange(0, k as int).push(frames[k as int]));
        assert(wire_view(writes@) =~= head + frames.subrange(0, k + 1));
        start = start + len;
        k = k + 1;
    }
    assert(frames.subrange(0, k as int) =~= frames);
    writes
}

/// Width in pixels of a row with `digit_count` digits around one dot.
fn row_width(digit_count: u16) -> (r: u16)
    requires
        digit_count <= 6,
    ensures
        r == DIGIT_WIDTH * digit_count + DOT_SLOT_WIDTH,
{
    DIGIT_WIDTH * digit_count + DOT_SLOT_WIDTH
}

/// Lays out the row `left.right` at height `y`.
fn layout_row(left: u8, right: u8, y: u16, digits: &mut Vec<DigitGlyph>, dots: &mut Vec<DotGlyph>)
    requires
        y <= 44,
    ensures
        final(digits)@ == old(digits)@ + row_digits(left, right, y as int),
        final(dots)@ == old(dots)@.push(row_dot(left, right, y as int)),
{
    let dl = decimal_digits(left);
    let dr = decimal_digits(right);
    let nl = dl.len();
    let nr = dr.len();
    let mut x: u16 = (SCREEN_WIDTH - row_width((nl + nr) as u16)) / 2;
    let ghost x0 = x as int;
    assert(x0 == row_start_x(left, right));
    let ghost start = digits@;
    let ghost want = row_digits(left, right, y as int);
    let mut i: usize = 0;
    while i < nl
        invariant
            dl@ == dec_digits(left),
            nl == dl@.len(),
            nr == dec_digits(right).len(),
            x0 == row_start_x(left, right),
            0 <= x0 <= 80,
            y <= 44,
            i <= nl,
            x as int == x0 + DIGIT_WIDTH * i,
            want == row_digits(left, right, y as int),
            digits@ == start + want.subrange(0, i as int),
        decreases nl - i,
    {
        digits.push(DigitGlyph { x, y, digit: dl[i] });
        assert(want.subrange(0, i + 1) =~= want.subrange(0, i as int).push(want[i as int]));
        x = x + DIGIT_WIDTH;
        i = i + 1;
    }
    dots.push(DotGlyph { x: x + (DOT_SLOT_WIDTH - DOT_SIZE) / 2, y: y + DIGIT_HEIGHT - DOT_SIZE - 3 });
    x = x + DOT_SLOT_WIDTH;
    let mut j: usize = 0;
    while j < nr
        invariant
            dr@ == dec_digits(right),
            nr == dr@.len(),
            nl == dec_digits(left).len(),
            x0 == row_start_x(left, right),
            0 <= x0 <= 80,
            y <= 44,
            j <= nr,
            x as int == x0 + DIGIT_WIDTH * (nl + j) + DOT_SLOT_WIDTH,
            want == row_digits(left, right, y as int),
            digits@ == start + want.subrange(0, (nl + j) as int),
        decreases nr - j,
    {
        digits.push(DigitGlyph { x, y, digit: dr[j] });
        assert(want.subrange(0, (nl + j + 1) as int) =~= want.subrange(0, (nl + j) as int).push(
            want[(nl + j) as int],
        ));
        x = x + DIGIT_WIDTH;
        j = j + 1;
    }
    assert(want.subrange(0, (nl + nr) as int) =~= want);
}

/// Appends the three writes that place one RAM-font digit.
fn push_glyph_writes(writes: &mut Vec<WireWrite>, glyph: DigitGlyph)
    requires
        glyph.digit < 10,
    ensures
        wire_view(final(writes)@) == wire_view(old(writes)@) + glyph_writes(glyph),
{
    let address = (DIGIT_RESOURCE_PAGE as u32 + glyph.digit as u32) * 256;
    writes.push(packet(set_xy_packet(glyph.x, glyph.y), false));
    writes.push(packet(set_size_packet(DIGIT_WIDTH, DIGIT_HEIGHT), false));
    writes.push(packet(add_ram_masked_packet(address), false));
    assert(wire_view(final(writes)@) =~= wire_view(old(writes)@) + glyph_writes(glyph));
}

impl DisplayRenderer {
    /// The "acquiring IP" page.
    pub fn pending() -> (r: Vec<WireWrite>)
        ensures
            wire_view(r@) == page_writes(PENDING_PAGE),
    {
        full_screen_page(PENDING_PAGE)
    }

    /// The "DHCP failed" page.
    pub fn dhcp_failed() -> (r: Vec<WireWrite>)
        ensures
            wire_view(r@) == page_writes(DHCP_FAILED_PAGE),
    {
        full_screen_page(DHCP_FAILED_PAGE)
    }

    /// Keepalive: repaints the bottom-right pixel black.
    pub fn keepalive() -> (r: Vec<WireWrite>)
        ensures
            wire_view(r@) == pixel_writes_spec(KEEPALIVE_X, KEEPALIVE_Y, RGB565_BLACK),
    {
        pixel_writes(KEEPALIVE_X, KEEPALIVE_Y, RGB565_BLACK)
    }

    /// Keepalive for the QR screen: repaints the bottom-right pixel white.
    pub fn keepalive_white() -> (r: Vec<WireWrite>)
        ensures
            wire_view(r@) == pixel_writes_spec(KEEPALIVE_X, KEEPALIVE_Y, RGB565_WHITE),
    {
        pixel_writes(KEEPALIVE_X, KEEPALIVE_Y, RGB565_WHITE)
    }

    /// The QR screen: the rendered bitmap written over the whole LCD.
    pub fn qr(ip: Ipv4Addr, template: &str) -> (r: Result<Vec<WireWrite>, String>)
        ensures
            match qr_render_result(template@, ip) {
                Ok(bytes) => r matches Ok(w) && wire_view(w@) == region_writes(0, 0, SCREEN_WIDTH, SCREEN_HEIGHT, bytes),
                Err(e) => r matches Err(m) && m@ == e,
            },
    {
        let bytes = render_qr_rgb565be(template, ip)?;
        Ok(lcd_region_writes(0, 0, SCREEN_WIDTH, SCREEN_HEIGHT, bytes.as_slice()))
    }

    /// Centres `a.b` over `c.d` on the 160x80 screen.
    pub fn layout_ip(ip: Ipv4Addr) -> (r: IpLayout)
        ensures
            r.digits@ == layout_digits(ip),
            r.dots@ == layout_dots(ip),
    {
        let mut digits = Vec::new();
        let mut dots = Vec::new();
        let start_y = (SCREEN_HEIGHT - (DIGIT_HEIGHT * 2 + ROW_GAP)) / 2;
        layout_row(ip.0, ip.1, start_y, &mut digits, &mut dots);
        layout_row(ip.2, ip.3, start_y + DIGIT_HEIGHT + ROW_GAP, &mut digits, &mut dots);
        assert(digits@ =~= layout_digits(ip));
        assert(dots@ =~= layout_dots(ip));
        IpLayout { digits, dots }
    }

    /// The text-mode IP screen.
    pub fn ip(ip: Ipv4Addr) -> (r: Vec<WireWrite>)
        ensures
            wire_view(r@) == ip_writes(ip),
    {
        let mut writes = vec![
            packet(show_photo_packet(IP_BACKGROUND_PAGE), false),
            packet(ram_init_packet(0), false),
        ];
        let ghost head = seq![plain(photo_cmd(IP_BACKGROUND_PAGE)), plain(ram_init_cmd(0))];
        assert(wire_view(writes@) =~= head);
        let layout = Self::layout_ip(ip);
        proof {
            lemma_layout_digits_are_decimal(ip);
        }
        let ghost glyphs = layout.digits@;
        let mut i: usize = 0;
        while i < layout.digits.len()
            invariant
                glyphs == layout.digits@,
                glyphs == layout_digits(ip),
                forall|j: int| 0 <= j < glyphs.len() ==> #[trigger] glyphs[j].digit < 10,
                i <= glyphs.len(),
                wire_view(writes@) == head + glyphs_writes(glyphs.subrange(0, i as int)),
            decreases glyphs.len() - i,
        {
            push_glyph_writes(&mut writes, layout.digits[i]);
            assert(glyphs.subrange(0, i + 1).drop_last() =~= glyphs.subrange(0, i as int));
            i = i + 1;
        }
        assert(glyphs.subrange(0, glyphs.len() as int) =~= glyphs);
        writes.push(packet(set_color_packet(RGB565_TEXT, RGB565_BLACK), false));
        writes.push(packet(load_ram_mix_show_packet(IP_BACKGROUND_PAGE), false));
        extend_writes(&mut writes, dot_writes(layout.dots[0]));
        extend_writes(&mut writes, dot_writes(layout.dots[1]));
        assert(wire_view(writes@) =~= ip_writes(ip));
        writes
    }
}

proof fn lemma_dec_digits_small(v: u8)
    ensures
        forall|j: int| 0 <= j < dec_digits(v).len() ==> #[trigger] dec_digits(v)[j] < 10,
{
}

proof fn lemma_layout_digits_are_decimal(ip: Ipv4Addr)
    ensures
        forall|j: int| 0 <= j < layout_digits(ip).len() ==> #[trigger] layout_digits(ip)[j].digit < 10,
{
    lemma_dec_digits_small(ip.0);
    lemma_dec_digits_small(ip.1);
    lemma_dec_digits_small(ip.2);
    lemma_dec_digits_small(ip.3);
    let r0 = row_digits(ip.0, ip.1, first_row_y());
    let r1 = row_digits(ip.2, ip.3, second_row_y());
    assert forall|j: int| 0 <= j < layout_digits(ip).len() implies #[trigger] layout_digits(ip)[j].digit < 10 by {
        if j < r0.len() {
            assert(layout_digits(ip)[j] == r0[j]);
        } else {
            assert(layout_digits(ip)[j] == r1[j - r0.len()]);
        }
    }
}

} // verus!
