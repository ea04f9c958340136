//! QR mode: the URL template is filled with the IP, encoded as a QR code and
//! drawn as a full-screen RGB565 bitmap.

use vstd::prelude::*;

use qrcodegen::{QrCode, QrCodeEcc};

use crate::host::ipv4::{dec_text, digit_to_char, dotted, Ipv4Addr};
use crate::text::{contains_text, push_char, push_str, replace_all, replace_str, str_contains};

verus! {

pub const QR_SCREEN_WIDTH: usize = 160;

pub const QR_SCREEN_HEIGHT: usize = 80;

pub const QR_WHITE: u16 = 0xffff;

pub const QR_BLACK: u16 = 0x0000;

/// Each module is drawn as a 2x2 pixel block.
pub const QR_SCALE: usize = 2;

/// Light modules around the symbol (the quiet zone).
pub const QR_BORDER_MODULES: usize = 4;

/// Larger symbols do not fit the 80-pixel screen height at scale 2.
pub const MAX_QR_VERSION: u8 = 3;

#[verifier::external_type_specification]
#[verifier::external_body]
pub struct ExQrCode(QrCode);

/// Error correction level requested from the encoder.
#[derive(Debug, Clone, Copy, PartialEq, Eq, Structural)]
pub enum QrEcc {
    Low,
    Medium,
    Quartile,
    High,
}

/// An encoded QR symbol, remembering the text and level it was encoded from.
pub struct QrSymbol {
    code: QrCode,
    text: Ghost<Seq<char>>,
    ecc: Ghost<QrEcc>,
}

impl QrSymbol {
    pub closed spec fn text(self) -> Seq<char> {
        self.text@
    }

    pub closed spec fn ecc(self) -> QrEcc {
        self.ecc@
    }
}

/// Whether `QrCode::encode_text` fits `text` into some QR version at level `ecc`.
pub uninterp spec fn qr_encodable(text: Seq<char>, ecc: QrEcc) -> bool;

/// The version (1..=40) that `QrCode::encode_text` picks for `text` at level `ecc`.
pub uninterp spec fn qr_version_of(text: Seq<char>, ecc: QrEcc) -> u8;

/// The colour (`true` = dark) of module `(x, y)` of the symbol that
/// `QrCode::encode_text` builds for `text` at level `ecc`.
pub uninterp spec fn qr_module_of(text: Seq<char>, ecc: QrEcc, x: int, y: int) -> bool;

/// `QrCode::encode_text`: encodes the text at the smallest version that fits.
/// Claimed: it succeeds exactly when `qr_encodable` holds, and the symbol is
/// the one for this text and level.
#[verifier::external_body]
fn qr_encode_text(text: &str, ecc: QrEcc) -> (r: Option<QrSymbol>)
    ensures
        r is Some <==> qr_encodable(text@, ecc),
        r matches Some(s) ==> s.text() == text@ && s.ecc() == ecc,
{
    let ecl = match ecc {
        QrEcc::Low => QrCodeEcc::Low,
        QrEcc::Medium => QrCodeEcc::Medium,
        QrEcc::Quartile => QrCodeEcc::Quartile,
        QrEcc::High => QrCodeEcc::High,
    };
    match QrCode::encode_text(text, ecl) {
        Ok(code) => Some(QrSymbol { code, text: Ghost(text@), ecc: Ghost(ecc) }),
        Err(_) => None,
    }
}

/// `QrCode::version` (read out with `Version::value`): documented to be in 1..=40.
#[verifier::external_body]
fn qr_version(symbol: &QrSymbol) -> (r: u8)
    ensures
        r == qr_version_of(symbol.text(), symbol.ecc()),
        1 <= r <= 40,
{
    symbol.code.version().value()
}

/// `QrCode::size`: documented to equal `version * 4 + 17`.
#[verifier::external_body]
fn qr_size(symbol: &QrSymbol) -> (r: i32)
    ensures
        r == qr_version_of(symbol.text(), symbol.ecc()) * 4 + 17,
{
    symbol.code.size()
}

/// `QrCode::get_module`: the module colour, documented to be light (`false`)
/// outside the symbol.
#[verifier::external_body]
fn qr_get_module(symbol: &QrSymbol, x: i32, y: i32) -> (r: bool)
    ensures
        r == qr_module_of(symbol.text(), symbol.ecc(), x as int, y as int),
        !(0 <= x < qr_version_of(symbol.text(), symbol.ecc()) * 4 + 17 && 0 <= y
            < qr_version_of(symbol.text(), symbol.ecc()) * 4 + 17) ==> !r,
{
    symbol.code.get_module(x, y)
}

/// Side in pixels of a symbol of `size` modules with its quiet zone.
pub open spec fn qr_side(size: int) -> int {
    (size + 2 * QR_BORDER_MODULES) * QR_SCALE
}

/// Whether screen pixel `(px, py)` is dark when a `size`-module symbol with
/// row-major `modules` is centred on the screen.
pub open spec fn qr_dark_at(size: int, modules: Seq<bool>, px: int, py: int) -> bool {
    let side = qr_side(size);
    let x0 = (QR_SCREEN_WIDTH - side) / 2;
    let y0 = (QR_SCREEN_HEIGHT - side) / 2;
    &&& x0 <= px < x0 + side
    &&& y0 <= py < y0 + side
    &&& {
        let mx = (px - x0) / QR_SCALE as int;
        let my = (py - y0) / QR_SCALE as int;
        &&& mx >= QR_BORDER_MODULES
        &&& my >= QR_BORDER_MODULES
        &&& mx - QR_BORDER_MODULES < size
        &&& my - QR_BORDER_MODULES < size
        &&& modules[(my - QR_BORDER_MODULES) * size + (mx - QR_BORDER_MODULES)]
    }
}

/// The full-screen big-endian RGB565 image: white, with dark modules black.
pub open spec fn qr_bitmap(size: int, modules: Seq<bool>) -> Seq<u8> {
    Seq::new(
        (QR_SCREEN_WIDTH * QR_SCREEN_HEIGHT * 2) as nat,
        |i: int|
            if qr_dark_at(size, modules, (i / 2) % QR_SCREEN_WIDTH as int, (i / 2) / QR_SCREEN_WIDTH as int) {
                0x00u8
            } else {
                0xffu8
            },
    )
}

/// Draws a `size`-module symbol given as row-major module colours.
pub fn qr_bitmap_rgb565be(size: usize, modules: &Vec<bool>) -> (r: Vec<u8>)
    requires
        qr_side(size as int) <= QR_SCREEN_HEIGHT,
        modules@.len() == size * size,
    ensures
        r@ == qr_bitmap(size as int, modules@),
{
    let side = (size + QR_BORDER_MODULES * 2) * QR_SCALE;
    let x0 = (QR_SCREEN_WIDTH - side) / 2;
    let y0 = (QR_SCREEN_HEIGHT - side) / 2;
    let mut bytes: Vec<u8> = Vec::new();
    let total = QR_SCREEN_WIDTH * QR_SCREEN_HEIGHT;
    let mut p: usize = 0;
    while p < total
        invariant
            total == QR_SCREEN_WIDTH * QR_SCREEN_HEIGHT,
            side == qr_side(size as int),
            side <= QR_SCREEN_HEIGHT,
            size <= 40,
            x0 == (QR_SCREEN_WIDTH - side) / 2,
            y0 == (QR_SCREEN_HEIGHT - side) / 2,
            modules@.len() == size * size,
            p <= total,
            bytes@.len() == 2 * p,
            forall|i: int| 0 <= i < 2 * p ==> #[trigger] bytes@[i] == qr_bitmap(size as int, modules@)[i],
        decreases total - p,
    {
        let px = p % QR_SCREEN_WIDTH;
        let py = p / QR_SCREEN_WIDTH;
        let mut dark = false;
        if x0 <= px && px < x0 + side && y0 <= py && py < y0 + side {
            let mx = (px - x0) / QR_SCALE;
            let my = (py - y0) / QR_SCALE;
            if mx >= QR_BORDER_MODULES && my >= QR_BORDER_MODULES && mx - QR_BORDER_MODULES < size
                && my - QR_BORDER_MODULES < size {
                let qx = mx - QR_BORDER_MODULES;
                let qy = my - QR_BORDER_MODULES;
                assert(qy * size + qx < size * size && qy * size <= 1600) by (nonlinear_arith)
                    requires
                        qx < size,
                        qy < size,
                        size <= 40,
                ;
                dark = modules[qy * size + qx];
            }
        }
        assert(dark == qr_dark_at(size as int, modules@, px as int, py as int));
        let value: u8 = if dark { 0x00 } else { 0xff };
        bytes.push(value);
        bytes.push(value);
        proof {
            assert forall|i: int| 0 <= i < 2 * (p + 1) implies #[trigger] bytes@[i] == qr_bitmap(
                size as int,
                modules@,
            )[i] by {
                if i >= 2 * p {
                    assert(i / 2 == p as int);
                }
            }
        }
        p = p + 1;
    }
    assert(bytes@ =~= qr_bitmap(size as int, modules@));
    bytes
}

/// The text a template expands to for `ip`.
pub open spec fn qr_content(template: Seq<char>, ip: Ipv4Addr) -> Seq<char> {
    replace_all(template, "{ip}"@, dotted(ip.octet_seq()))
}

/// Row-major module colours of the symbol for `text` at level `ecc`.
pub open spec fn qr_modules_of(text: Seq<char>, ecc: QrEcc) -> Seq<bool> {
    let size = qr_version_of(text, ecc) * 4 + 17;
    Seq::new((size * size) as nat, |i: int| qr_module_of(text, ecc, i % size, i / size))
}

/// Message when the template lacks the placeholder.
pub open spec fn missing_placeholder_message() -> Seq<char> {
    "QR template must contain {ip}"@
}

/// Message when the text does not fit any QR version.
pub open spec fn too_long_message() -> Seq<char> {
    "QR URL too long for this screen"@
}

/// Message when the text needs a version above the screen's limit.
pub open spec fn version_too_high_message(version: u8) -> Seq<char> {
    "QR URL too long for this screen: version "@ + dec_text(version) + " exceeds version 3"@
}

/// What rendering `template` for `ip` yields, given the encoder's answers.
pub open spec fn qr_render_result(template: Seq<char>, ip: Ipv4Addr) -> Result<Seq<u8>, Seq<char>> {
    let content = qr_content(template, ip);
    if !contains_text(template, "{ip}"@) {
        Err(missing_placeholder_message())
    } else if !qr_encodable(content, QrEcc::Medium) {
        Err(too_long_message())
    } else if qr_version_of(content, QrEcc::Medium) > MAX_QR_VERSION {
        Err(version_too_high_message(qr_version_of(content, QrEcc::Medium)))
    } else {
        let size = qr_version_of(content, QrEcc::Medium) * 4 + 17;
        Ok(qr_bitmap(size, qr_modules_of(content, QrEcc::Medium)))
    }
}

pub open spec fn result_view(r: Result<Vec<u8>, String>) -> Result<Seq<u8>, Seq<char>> {
    match r {
        Ok(v) => Ok(v@),
        Err(e) => Err(e@),
    }
}

/// Reads every module of the symbol, row by row.
fn read_modules(symbol: &QrSymbol, size: usize) -> (r: Vec<bool>)
    requires
        size == qr_version_of(symbol.text(), symbol.ecc()) * 4 + 17,
        size <= 177,
    ensures
        r@ == qr_modules_of(symbol.text(), symbol.ecc()),
{
    let mut modules: Vec<bool> = Vec::new();
    assert(size * size <= 177 * 177) by (nonlinear_arith)
        requires
            size <= 177,
    ;
    let total = size * size;
    let mut i: usize = 0;
    while i < total
        invariant
            size == qr_version_of(symbol.text(), symbol.ecc()) * 4 + 17,
            size <= 177,
            total == size * size,
            i <= total,
            modules@ == qr_modules_of(symbol.text(), symbol.ecc()).subrange(0, i as int),
        decreases total - i,
    {
        let x = (i % size) as i32;
        let y = (i / size) as i32;
        let m = qr_get_module(symbol, x, y);
        assert(i / size < size) by (nonlinear_arith)
            requires
                i < size * size,
                size > 0,
        ;
        assert(qr_modules_of(symbol.text(), symbol.ecc())[i as int] == m);
        modules.push(m);
        assert(qr_modules_of(symbol.text(), symbol.ecc()).subrange(0, i + 1) =~= qr_modules_of(
            symbol.text(),
            symbol.ecc(),
        ).subrange(0, i as int).push(m));
        i = i + 1;
    }
    assert(qr_modules_of(symbol.text(), symbol.ecc()).subrange(0, total as int) =~= qr_modules_of(
        symbol.text(),
        symbol.ecc(),
    ));
    modules
}

fn message(text: &str) -> (r: String)
    ensures
        r@ == text@,
{
    let mut out = String::new();
    push_str(&mut out, text);
    out
}

/// Renders the template, with `{ip}` replaced by the address, as a
/// full-screen QR bitmap.
pub fn render_qr_rgb565be(template: &str, ip: Ipv4Addr) -> (r: Result<Vec<u8>, String>)
    ensures
        result_view(r) == qr_render_result(template@, ip),
{
    if !str_contains(template, "{ip}") {
        return Err(message("QR template must contain {ip}"));
    }
    proof {
        reveal_strlit("{ip}");
    }
    let ip_text = ip.to_string();
    let content = replace_str(template, "{ip}", ip_text.as_str());
    let symbol = match qr_encode_text(content.as_str(), QrEcc::Medium) {
        Some(symbol) => symbol,
        None => return Err(message("QR URL too long for this screen")),
    };
    let version = qr_version(&symbol);
    if version > MAX_QR_VERSION {
        let mut err = message("QR URL too long for this screen: version ");
        let digits = crate::host::ipv4::decimal_digits(version);
        let mut i: usize = 0;
        while i < digits.len()
            invariant
                digits@ == crate::host::ipv4::dec_digits(version),
                i <= digits@.len(),
                err@ == "QR URL too long for this screen: version "@ + dec_text(version).subrange(0, i as int),
            decreases digits@.len() - i,
        {
            push_char(&mut err, digit_to_char(digits[i]));
            assert(dec_text(version).subrange(0, i + 1) =~= dec_text(version).subrange(0, i as int).push(
                crate::host::ipv4::digit_char(digits@[i as int]),
            ));
            i = i + 1;
        }
        assert(dec_text(version).subrange(0, digits@.len() as int) =~= dec_text(version));
        push_str(&mut err, " exceeds version 3");
        return Err(err);
    }
    let size = qr_size(&symbol) as usize;
    let side = (size + QR_BORDER_MODULES * 2) * QR_SCALE;
    if side > QR_SCREEN_HEIGHT || side > QR_SCREEN_WIDTH {
        assert(false);
        return Err(message("QR URL too long for this screen"));
    }
    let modules = read_modules(&symbol, size);
    Ok(qr_bitmap_rgb565be(size, &modules))
}

/// Checks a template in the worst case, the longest address `255.255.255.255`.
pub fn validate_template(template: &str) -> (r: Result<(), String>)
    ensures
        r is Ok <==> qr_render_result(template@, Ipv4Addr(255, 255, 255, 255)) is Ok,
        r matches Err(e) ==> qr_render_result(template@, Ipv4Addr(255, 255, 255, 255)) == Err::<Seq<u8>, Seq<char>>(e@),
{
    match render_qr_rgb565be(template, Ipv4Addr::new(255, 255, 255, 255)) {
        Ok(_) => Ok(()),
        Err(e) => Err(e),
    }
}


/// Module `(x, y)` of the symbol (column `x`, row `y`, stored at
/// `y * size + x`) is drawn as a 2x2 block after a 4-module quiet zone, with
/// the symbol centred: both bytes of each of the block's four pixels are
/// `0x00` when the module is dark and `0xff` when it is light.
pub proof fn lemma_qr_module_drawn_in_place(size: int, modules: Seq<bool>, x: int, y: int, dx: int, dy: int)
    requires
        0 <= size,
        (size + 8) * 2 <= 80,
        modules.len() == size * size,
        0 <= x < size,
        0 <= y < size,
        0 <= dx < 2,
        0 <= dy < 2,
    ensures
        ({
            let x0 = (160 - (size + 8) * 2) / 2;
            let y0 = (80 - (size + 8) * 2) / 2;
            let px = x0 + 2 * (x + 4) + dx;
            let py = y0 + 2 * (y + 4) + dy;
            let i = 2 * (py * 160 + px);
            let expected: u8 = if modules[y * size + x] { 0x00 } else { 0xff };
            &&& 0 <= px < 160
            &&& 0 <= py < 80
            &&& qr_bitmap(size, modules)[i] == expected
            &&& qr_bitmap(size, modules)[i + 1] == expected
        }),
{
    let x0 = (160 - (size + 8) * 2) / 2;
    let y0 = (80 - (size + 8) * 2) / 2;
    let px = x0 + 2 * (x + 4) + dx;
    let py = y0 + 2 * (y + 4) + dy;
    let i = 2 * (py * 160 + px);
    assert(0 <= px < 160 && 0 <= py < 80);
    assert((px - x0) / 2 == x + 4);
    assert((py - y0) / 2 == y + 4);
    assert(i / 2 == py * 160 + px);
    assert((i + 1) / 2 == py * 160 + px);
    assert((py * 160 + px) % 160 == px && (py * 160 + px) / 160 == py) by (nonlinear_arith)
        requires
            0 <= px < 160,
            0 <= py,
    ;
    assert(0 <= i && i + 1 < 160 * 80 * 2) by (nonlinear_arith)
        requires
            i == 2 * (py * 160 + px),
            0 <= px < 160,
            0 <= py < 80,
    ;
    assert(qr_dark_at(size, modules, px, py) == modules[y * size + x]);
}

/// A rendered QR screen shows the encoder's symbol as encoded: the 2x2
/// block of module `(x, y)` (column `x`, row `y` as the encoder reports them)
/// is black exactly when that module is dark.
pub proof fn lemma_qr_render_shows_encoded_modules(template: Seq<char>, ip: Ipv4Addr, x: int, y: int, dx: int, dy: int)
    requires
        qr_render_result(template, ip) is Ok,
        0 <= x < qr_version_of(qr_content(template, ip), QrEcc::Medium) * 4 + 17,
        0 <= y < qr_version_of(qr_content(template, ip), QrEcc::Medium) * 4 + 17,
        0 <= dx < 2,
        0 <= dy < 2,
    ensures
        ({
            let content = qr_content(template, ip);
            let size = qr_version_of(content, QrEcc::Medium) * 4 + 17;
            let bytes = qr_render_result(template, ip)->Ok_0;
            let x0 = (160 - (size + 8) * 2) / 2;
            let y0 = (80 - (size + 8) * 2) / 2;
            let i = 2 * ((y0 + 2 * (y + 4) + dy) * 160 + (x0 + 2 * (x + 4) + dx));
            let expected: u8 = if qr_module_of(content, QrEcc::Medium, x, y) { 0x00 } else { 0xff };
            &&& bytes[i] == expected
            &&& bytes[i + 1] == expected
        }),
{
    let content = qr_content(template, ip);
    let size = qr_version_of(content, QrEcc::Medium) * 4 + 17;
    let modules = qr_modules_of(content, QrEcc::Medium);
    assert(size <= 29);
    assert(modules.len() == size * size);
    assert(y * size + x < size * size && 0 <= y * size + x) by (nonlinear_arith)
        requires
            0 <= x < size,
            0 <= y < size,
    ;
    assert((y * size + x) % size == x && (y * size + x) / size == y) by (nonlinear_arith)
        requires
            0 <= x < size,
            0 <= y < size,
    ;
    assert(modules[y * size + x] == qr_module_of(content, QrEcc::Medium, x, y));
    lemma_qr_module_drawn_in_place(size, modules, x, y, dx, dy);
}

/// The QR screen is one full-screen image, and every pixel left or right of
/// the centred symbol (its quiet zone included) is white.
pub proof fn lemma_qr_image_has_white_margins(size: int, modules: Seq<bool>, px: int, py: int)
    requires
        0 <= size,
        qr_side(size) <= QR_SCREEN_HEIGHT,
        0 <= px < QR_SCREEN_WIDTH,
        0 <= py < QR_SCREEN_HEIGHT,
        px < (QR_SCREEN_WIDTH - qr_side(size)) / 2 || px >= (QR_SCREEN_WIDTH - qr_side(size)) / 2 + qr_side(size),
    ensures
        qr_bitmap(size, modules).len() == QR_SCREEN_WIDTH * QR_SCREEN_HEIGHT * 2,
        qr_bitmap(size, modules)[2 * (py * QR_SCREEN_WIDTH + px)] == 0xff,
        qr_bitmap(size, modules)[2 * (py * QR_SCREEN_WIDTH + px) + 1] == 0xff,
{
    let i = 2 * (py * QR_SCREEN_WIDTH + px);
    assert(i / 2 == py * QR_SCREEN_WIDTH + px);
    assert((i + 1) / 2 == py * QR_SCREEN_WIDTH + px);
    assert((py * 160 + px) % 160 == px && (py * 160 + px) / 160 == py) by (nonlinear_arith)
        requires
            0 <= px < 160,
            0 <= py,
    ;
    assert(0 <= i && i + 1 < QR_SCREEN_WIDTH * QR_SCREEN_HEIGHT * 2) by (nonlinear_arith)
        requires
            i == 2 * (py * 160 + px),
            0 <= px < 160,
            0 <= py < 80,
    ;
}

} // verus!
