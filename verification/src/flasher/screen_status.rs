//! Flash progress drawn on the screen itself: a status screen with a
//! percentage panel and a green bar, written straight into the LCD. A screen
//! that does not take the writes is simply left alone for the rest of the job.

use vstd::prelude::*;

use crate::flasher::device::PortIo;
use crate::flasher::errors::{AppError, AppResult};
use crate::flasher::flashing::{write_lcd_region, RetryPolicy};

verus! {

pub const SCREEN_WIDTH: u16 = 160;

pub const SCREEN_HEIGHT: u16 = 80;

pub const PROGRESS_INNER_X: u16 = 26;

pub const PROGRESS_INNER_Y: u16 = 62;

pub const PROGRESS_INNER_WIDTH: u16 = 108;

pub const PROGRESS_INNER_HEIGHT: u16 = 4;

pub const PERCENT_X: u16 = 62;

pub const PERCENT_Y: u16 = 42;

pub const PERCENT_WIDTH: u16 = 36;

pub const PERCENT_HEIGHT: u16 = 13;

/// Bytes of one percentage panel (36 x 13 pixels, two bytes each).
pub const PERCENT_BYTES: usize = 936;

/// The bar colour.
pub const GREEN: (u8, u8, u8) = (51, 255, 127);

/// The full-screen images and the strip of 101 percentage panels (0 to 100 %)
/// that the status screens are drawn from.
#[derive(Debug, Clone, Copy)]
pub struct StatusScreens<'a> {
    pub initial: &'a [u8],
    pub done: &'a [u8],
    pub percent_strip: &'a [u8],
    pub waiting: &'a [u8],
}

impl<'a> StatusScreens<'a> {
    /// The strip holds a panel for every percentage.
    pub open spec fn wf(&self) -> bool {
        self.percent_strip@.len() >= 101 * PERCENT_BYTES
    }
}

/// Writes a full-screen image; the screen needs a moment to settle afterwards.
fn write_full_screen<P: PortIo>(port: &mut P, bytes: &[u8]) -> (r: AppResult<()>)
    ensures
        exists|p1: &mut P, b1: &[u8], rp: RetryPolicy, r1: AppResult<()>|
            #[trigger] call_ensures(write_lcd_region::<P>, (p1, 0u16, 0u16, SCREEN_WIDTH, SCREEN_HEIGHT, b1, rp), r1)
                && rp.attempts == 1 && *p1 == *old(port) && b1@ == bytes@ && match r1 {
                Err(e) => r == Err::<(), AppError>(e) && *final(port) == *final(p1),
                Ok(_) => exists|p2: &mut P, v2: AppResult<Vec<u8>>|
                    #[trigger] call_ensures(P::read_idle, (p2, 250u64, 40u64), v2) && *p2 == *final(p1) && *final(port)
                        == *final(p2) && match v2 {
                        Err(e) => r == Err::<(), AppError>(e),
                        Ok(_) => r is Ok,
                    },
            },
{
    write_lcd_region(port, 0, 0, SCREEN_WIDTH, SCREEN_HEIGHT, bytes, RetryPolicy { attempts: 1 })?;
    port.read_idle(250, 40)?;
    Ok(())
}

/// Puts up the "waiting to flash" screen: written full-screen, then a
/// 250 ms read lets the screen settle.
pub fn show_waiting_to_flash<P: PortIo>(port: &mut P, screens: &StatusScreens) -> (r: AppResult<()>)
    ensures
        exists|p1: &mut P, b1: &[u8], rp: RetryPolicy, r1: AppResult<()>|
            #[trigger] call_ensures(write_lcd_region::<P>, (p1, 0u16, 0u16, SCREEN_WIDTH, SCREEN_HEIGHT, b1, rp), r1)
                && rp.attempts == 1 && *p1 == *old(port) && b1@ == screens.waiting@ && match r1 {
                Err(e) => r == Err::<(), AppError>(e) && *final(port) == *final(p1),
                Ok(_) => exists|p2: &mut P, v2: AppResult<Vec<u8>>|
                    #[trigger] call_ensures(P::read_idle, (p2, 250u64, 40u64), v2) && *p2 == *final(p1) && *final(port)
                        == *final(p2) && match v2 {
                        Err(e) => r == Err::<(), AppError>(e),
                        Ok(_) => r is Ok,
                    },
            },
{
    write_full_screen(port, screens.waiting)
}

/// Puts up the "flash done" screen: written full-screen, then a 250 ms
/// read lets the screen settle.
pub fn show_flash_done<P: PortIo>(port: &mut P, screens: &StatusScreens) -> (r: AppResult<()>)
    ensures
        exists|p1: &mut P, b1: &[u8], rp: RetryPolicy, r1: AppResult<()>|
            #[trigger] call_ensures(write_lcd_region::<P>, (p1, 0u16, 0u16, SCREEN_WIDTH, SCREEN_HEIGHT, b1, rp), r1)
                && rp.attempts == 1 && *p1 == *old(port) && b1@ == screens.done@ && match r1 {
                Err(e) => r == Err::<(), AppError>(e) && *final(port) == *final(p1),
                Ok(_) => exists|p2: &mut P, v2: AppResult<Vec<u8>>|
                    #[trigger] call_ensures(P::read_idle, (p2, 250u64, 40u64), v2) && *p2 == *final(p1) && *final(port)
                        == *final(p2) && match v2 {
                        Err(e) => r == Err::<(), AppError>(e),
                        Ok(_) => r is Ok,
                    },
            },
{
    write_full_screen(port, screens.done)
}

/// Repaints the bottom-right pixel black, which keeps the screen in host mode.
pub fn keepalive_pixel<P: PortIo>(port: &mut P) -> (r: AppResult<()>)
    ensures
        exists|p: &mut P, b: &[u8], rp: RetryPolicy|
            #[trigger] call_ensures(write_lcd_region::<P>, (p, 159u16, 79u16, 1u16, 1u16, b, rp), r) && rp.attempts
                == 1 && *p == *old(port) && *final(p) == *final(port) && b@ == seq![0x00u8, 0x00u8],
{
    let black = [0x00u8, 0x00u8];
    write_lcd_region(port, 159, 79, 1, 1, &black, RetryPolicy { attempts: 1 })
}

pub open spec fn clamp_percent(percent: u8) -> u8 {
    if percent > 100 {
        100
    } else {
        percent
    }
}

/// Pixels of the bar that are green at a percentage.
pub open spec fn fill_pixels_spec(percent: u8) -> u16 {
    ((PROGRESS_INNER_WIDTH * clamp_percent(percent)) / 100) as u16
}

fn fill_pixels(percent: u8) -> (r: u16)
    ensures
        r == fill_pixels_spec(percent),
        r <= PROGRESS_INNER_WIDTH,
{
    let p: u32 = if percent > 100 {
        100
    } else {
        percent as u32
    };
    assert(108 * p / 100 <= 108) by (nonlinear_arith)
        requires
            p <= 100,
    ;
    ((PROGRESS_INNER_WIDTH as u32 * p) / 100) as u16
}

/// The RGB565 value of a colour.
pub open spec fn rgb565(r: u8, g: u8, b: u8) -> u16 {
    ((((r as u16) & 0xf8) << 8u16) | (((g as u16) & 0xfc) << 3u16) | ((b as u16) >> 3u16)) as u16
}

/// `count` pixels of one colour, big-endian.
pub open spec fn solid_bytes(value: u16, count: nat) -> Seq<u8> {
    Seq::new(2 * count, |i: int| if i % 2 == 0 { (value >> 8u16) as u8 } else { (value & 0xff) as u8 })
}

fn solid_rgb565(width: u16, height: u16, color: (u8, u8, u8)) -> (r: Vec<u8>)
    ensures
        r@ == solid_bytes(rgb565(color.0, color.1, color.2), (width * height) as nat),
{
    let (red, green, blue) = color;
    let value: u16 = (((red as u16) & 0xf8) << 8u16) | (((green as u16) & 0xfc) << 3u16) | ((blue as u16) >> 3u16);
    let hi: u8 = (value >> 8u16) as u8;
    let lo: u8 = (value & 0xff) as u8;
    assert((width as u32) * (height as u32) <= 65535 * 65535) by (nonlinear_arith)
        requires
            width <= 65535,
            height <= 65535,
    ;
    let count: u32 = width as u32 * height as u32;
    let ghost want = solid_bytes(value, count as nat);
    let mut out: Vec<u8> = Vec::new();
    let mut i: u32 = 0;
    while i < count
        invariant
            i <= count,
            want == solid_bytes(value, count as nat),
            out@ == want.subrange(0, 2 * i),
            hi == (value >> 8u16) as u8,
            lo == (value & 0xff) as u8,
        decreases count - i,
    {
        out.push(hi);
        out.push(lo);
        assert(out@ =~= want.subrange(0, 2 * (i + 1)));
        i = i + 1;
    }
    assert(want.subrange(0, 2 * count) =~= want);
    out
}

/// A region of the screen handed bytes to show: `(x, y, width, height, bytes)`.
pub type RegionWrite = (u16, u16, u16, u16, Seq<u8>);

/// What the screen currently shows of the progress, while it takes writes.
#[derive(Clone, Copy)]
pub struct ScreenStatus {
    enabled: bool,
    last_percent: Option<u8>,
    last_fill_px: u16,
    drawn: Ghost<Seq<RegionWrite>>,
}

/// The percentage panel of `percent` (at most 100) in the strip.
pub open spec fn percent_panel(strip: Seq<u8>, percent: u8) -> Seq<u8> {
    strip.subrange(clamp_percent(percent) * PERCENT_BYTES, (clamp_percent(percent) + 1) * PERCENT_BYTES)
}

/// The regions an update from `old_fill` pixels to `percent` draws: the
/// percentage panel, then the newly green part of the bar when it grows.
pub open spec fn update_regions(strip: Seq<u8>, percent: u8, old_fill: u16) -> Seq<RegionWrite> {
    let panel: RegionWrite = (PERCENT_X, PERCENT_Y, PERCENT_WIDTH, PERCENT_HEIGHT, percent_panel(strip, percent));
    let fill = fill_pixels_spec(percent);
    if fill > old_fill {
        let delta = (fill - old_fill) as u16;
        seq![
            panel,
            (
                (PROGRESS_INNER_X + old_fill) as u16,
                PROGRESS_INNER_Y,
                delta,
                PROGRESS_INNER_HEIGHT,
                solid_bytes(rgb565(GREEN.0, GREEN.1, GREEN.2), (delta * PROGRESS_INNER_HEIGHT) as nat),
            ),
        ]
    } else {
        seq![panel]
    }
}

/// The pixel a probe paints black.
pub open spec fn probe_region() -> RegionWrite {
    (80u16, 79u16, 1u16, 1u16, seq![0x00u8, 0x00u8])
}

impl ScreenStatus {
    /// Every region handed to the screen so far, oldest first (a region whose
    /// write failed included).
    pub closed spec fn drawn(&self) -> Seq<RegionWrite> {
        self.drawn@
    }

    pub closed spec fn enabled_spec(&self) -> bool {
        self.enabled
    }

    pub closed spec fn last_percent_spec(&self) -> Option<u8> {
        self.last_percent
    }

    pub closed spec fn last_fill_spec(&self) -> u16 {
        self.last_fill_px
    }

    /// The bar never extends past its width, and covers at least the drawn percentage.
    pub closed spec fn wf(&self) -> bool {
        &&& self.last_fill_px <= PROGRESS_INNER_WIDTH
        &&& self.last_percent matches Some(p) ==> self.last_fill_px >= fill_pixels_spec(p)
    }

    /// A status that draws nothing.
    pub fn disabled() -> (r: ScreenStatus)
        ensures
            r.wf(),
            !r.enabled_spec(),
            r.drawn() == Seq::<RegionWrite>::empty(),
    {
        ScreenStatus { enabled: false, last_percent: None, last_fill_px: 0, drawn: Ghost(Seq::empty()) }
    }

    /// Tries one pixel; a screen that refuses it gets no status drawing.
    pub fn probe<P: PortIo>(port: &mut P) -> (r: ScreenStatus)
        ensures
            r.wf(),
            r.last_percent_spec() is None,
            r.last_fill_spec() == 0,
            r.drawn() == seq![probe_region()],
            exists|q: &mut P, b: &[u8], rp: RetryPolicy, o: AppResult<()>|
                #[trigger] call_ensures(write_lcd_region::<P>, (q, 80u16, 79u16, 1u16, 1u16, b, rp), o) && *q == *old(port)
                    && *final(q) == *final(port) && b@ == seq![0x00u8, 0x00u8] && rp.attempts == 1 && r.enabled_spec() == (o is Ok),
    {
        let mut status = ScreenStatus { enabled: true, last_percent: None, last_fill_px: 0, drawn: Ghost(Seq::empty()) };
        let black_pixel = [0x00u8, 0x00u8];
        status.write_region(port, 80, 79, 1, 1, &black_pixel);
        status
    }

    pub fn is_enabled(&self) -> (r: bool)
        ensures
            r == self.enabled_spec(),
    {
        self.enabled
    }

    /// Draws the initial status screen, at 0 %.
    pub fn start<P: PortIo>(&mut self, port: &mut P, screens: &StatusScreens)
        requires
            old(self).wf(),
        ensures
            final(self).wf(),
            !old(self).enabled_spec() ==> *final(self) == *old(self) && *final(port) == *old(port),
            final(self).enabled_spec() ==> final(self).last_percent_spec() == Some(0u8)
                && final(self).last_fill_spec() == 0,
            old(self).enabled_spec() ==> final(self).drawn() == old(self).drawn().push(
                (0u16, 0u16, SCREEN_WIDTH, SCREEN_HEIGHT, screens.initial@),
            ) && exists|q: &mut P, b: &[u8], rp: RetryPolicy, o: AppResult<()>|
                #[trigger] call_ensures(write_lcd_region::<P>, (q, 0u16, 0u16, SCREEN_WIDTH, SCREEN_HEIGHT, b, rp), o) && *q == *old(port)
                    && *final(q) == *final(port) && b@ == screens.initial@ && rp.attempts == 1 && final(self).enabled_spec() == (o is Ok),
    {
        self.write_region(port, 0, 0, SCREEN_WIDTH, SCREEN_HEIGHT, screens.initial);
        if self.enabled {
            self.last_percent = Some(0);
            self.last_fill_px = 0;
        }
    }

    /// Redraws the percentage and grows the bar when the percentage changed.
    pub fn update<P: PortIo>(&mut self, port: &mut P, percent: u8, screens: &StatusScreens)
        requires
            old(self).wf(),
            old(self).enabled_spec() ==> screens.wf(),
        ensures
            final(self).wf(),
            !old(self).enabled_spec() ==> *final(self) == *old(self),
            old(self).last_percent_spec() == Some(clamp_percent(percent)) ==> *final(self) == *old(self),
            final(self).enabled_spec() ==> final(self).last_percent_spec() == Some(clamp_percent(percent))
                && final(self).last_fill_spec() == (if fill_pixels_spec(percent) > old(self).last_fill_spec() {
                fill_pixels_spec(percent)
            } else {
                old(self).last_fill_spec()
            }),
            old(self).enabled_spec() || !final(self).enabled_spec(),
            !old(self).enabled_spec() || old(self).last_percent_spec() == Some(clamp_percent(percent)) ==> *final(port)
                == *old(port),
            old(self).enabled_spec() && old(self).last_percent_spec() != Some(clamp_percent(percent)) ==> {
                let regions = update_regions(screens.percent_strip@, percent, old(self).last_fill_spec());
                ||| final(self).drawn() == old(self).drawn() + regions
                ||| !final(self).enabled_spec() && final(self).drawn() == old(self).drawn() + regions.take(1)
            },
            old(self).enabled_spec() && old(self).last_percent_spec() != Some(clamp_percent(percent)) ==> {
                let old_fill = old(self).last_fill_spec();
                let fill = fill_pixels_spec(percent);
                exists|q: &mut P, b: &[u8], rp: RetryPolicy, o: AppResult<()>|
                    #[trigger] call_ensures(
                        write_lcd_region::<P>,
                        (q, PERCENT_X, PERCENT_Y, PERCENT_WIDTH, PERCENT_HEIGHT, b, rp),
                        o,
                    ) && *q == *old(port) && b@ == percent_panel(screens.percent_strip@, percent) && rp.attempts == 1
                        && match o {
                        Err(_) => !final(self).enabled_spec() && *final(q) == *final(port),
                        Ok(_) => if fill > old_fill {
                            exists|q2: &mut P, b2: &[u8], rp2: RetryPolicy, o2: AppResult<()>|
                                #[trigger] call_ensures(
                                    write_lcd_region::<P>,
                                    (
                                        q2,
                                        (PROGRESS_INNER_X + old_fill) as u16,
                                        PROGRESS_INNER_Y,
                                        (fill - old_fill) as u16,
                                        PROGRESS_INNER_HEIGHT,
                                        b2,
                                        rp2,
                                    ),
                                    o2,
                                ) && *q2 == *final(q) && *final(q2) == *final(port) && b2@ == solid_bytes(
                                    rgb565(GREEN.0, GREEN.1, GREEN.2),
                                    ((fill - old_fill) * PROGRESS_INNER_HEIGHT) as nat,
                                ) && rp2.attempts == 1 && final(self).enabled_spec() == (o2 is Ok)
                        } else {
                            *final(q) == *final(port) && final(self).enabled_spec()
                        },
                    }
            },
    {
        if !self.enabled {
            return;
        }
        let percent = if percent > 100 {
            100
        } else {
            percent
        };
        if self.last_percent == Some(percent) {
            return;
        }
        let start = (percent as usize) * PERCENT_BYTES;
        let panel = vstd::slice::slice_subrange(screens.percent_strip, start, start + PERCENT_BYTES);
        let ghost regions = update_regions(screens.percent_strip@, percent, self.last_fill_px);
        assert(panel@ == regions[0].4);
        self.write_region(port, PERCENT_X, PERCENT_Y, PERCENT_WIDTH, PERCENT_HEIGHT, panel);
        if !self.enabled {
            return;
        }
        let next_fill_px = fill_pixels(percent);
        if next_fill_px > self.last_fill_px {
            let delta = next_fill_px - self.last_fill_px;
            let fill = solid_rgb565(delta, PROGRESS_INNER_HEIGHT, GREEN);
            self.write_region(
                port,
                PROGRESS_INNER_X + self.last_fill_px,
                PROGRESS_INNER_Y,
                delta,
                PROGRESS_INNER_HEIGHT,
                fill.as_slice(),
            );
            if !self.enabled {
                return;
            }
            self.last_fill_px = next_fill_px;
        }
        self.last_percent = Some(percent);
    }

    /// Draws the "done" screen.
    pub fn finish<P: PortIo>(&mut self, port: &mut P, screens: &StatusScreens)
        requires
            old(self).wf(),
        ensures
            final(self).wf(),
            final(self).last_percent_spec() == old(self).last_percent_spec(),
            final(self).last_fill_spec() == old(self).last_fill_spec(),
            !old(self).enabled_spec() ==> !final(self).enabled_spec() && *final(port) == *old(port),
            old(self).enabled_spec() ==> exists|q: &mut P, b: &[u8], rp: RetryPolicy, o: AppResult<()>|
                #[trigger] call_ensures(write_lcd_region::<P>, (q, 0u16, 0u16, SCREEN_WIDTH, SCREEN_HEIGHT, b, rp), o) && *q == *old(port)
                    && *final(q) == *final(port) && b@ == screens.done@ && rp.attempts == 1 && final(self).enabled_spec() == (o is Ok),
            final(self).drawn() == if old(self).enabled_spec() {
                old(self).drawn().push((0u16, 0u16, SCREEN_WIDTH, SCREEN_HEIGHT, screens.done@))
            } else {
                old(self).drawn()
            },
    {
        self.write_region(port, 0, 0, SCREEN_WIDTH, SCREEN_HEIGHT, screens.done);
    }

    /// Writes a region while enabled; a failed write disables the status.
    fn write_region<P: PortIo>(&mut self, port: &mut P, x: u16, y: u16, width: u16, height: u16, bytes: &[u8])
        ensures
            final(self).last_percent == old(self).last_percent,
            final(self).last_fill_px == old(self).last_fill_px,
            !old(self).enabled ==> !final(self).enabled && *final(port) == *old(port),
            old(self).enabled ==> exists|q: &mut P, b: &[u8], rp: RetryPolicy, o: AppResult<()>|
                #[trigger] call_ensures(write_lcd_region::<P>, (q, x, y, width, height, b, rp), o) && *q == *old(port)
                    && *final(q) == *final(port) && b@ == bytes@ && rp.attempts == 1 && final(self).enabled == (o is Ok),
            final(self).drawn@ == if old(self).enabled {
                old(self).drawn@.push((x, y, width, height, bytes@))
            } else {
                old(self).drawn@
            },
    {
        if !self.enabled {
            return;
        }
        self.drawn = Ghost(self.drawn@.push((x, y, width, height, bytes@)));
        let rp = RetryPolicy { attempts: 1 };
        let ghost before = *port;
        let written = write_lcd_region(port, x, y, width, height, bytes, rp);
        assert(exists|q: &mut P, b: &[u8], rp2: RetryPolicy, o: AppResult<()>|
            #[trigger] call_ensures(write_lcd_region::<P>, (q, x, y, width, height, b, rp2), o) && *q == before
                && *final(q) == *port && b@ == bytes@ && rp2.attempts == 1 && o == written);
        if written.is_err() {
            self.enabled = false;
        }
    }
}

} // verus!
