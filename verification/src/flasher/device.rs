//! Finding the screen among the serial ports, the port operations the flasher
//! needs, the handshake, and the idle-timeout rule for reading replies.

use vstd::prelude::*;

use crate::flasher::errors::{AppError, AppResult};
use crate::flasher::protocol::{contains_sequence, HANDSHAKE};
use crate::frame::contains_seq;
use crate::hex::{hex4, push_hex4};
use crate::text::{ascii_lower, contains_text, push_str, str_contains, string_of, to_ascii_lowercase};

verus! {

pub const TARGET_VID: u16 = 0x1a86;

pub const TARGET_PID: u16 = 0xfe0c;

pub const BAUD_RATE: u32 = 921600;

/// A serial port that looks like the screen.
#[derive(Debug, Clone, PartialEq, Eq)]
pub struct DeviceInfo {
    pub port_name: String,
    pub vid_pid: Option<String>,
    pub product: Option<String>,
    pub serial: Option<String>,
}

/// Writing to the screen and reading its replies.
pub trait PortIo {
    fn write_all(&mut self, bytes: &[u8]) -> AppResult<()>;

    /// Reads until `total_ms` has passed, or `idle_ms` after the last byte.
    fn read_idle(&mut self, total_ms: u64, idle_ms: u64) -> AppResult<Vec<u8>>;
}

pub open spec fn lowered(t: Seq<char>) -> Seq<char> {
    t.map_values(|c: char| ascii_lower(c))
}

/// The screen's USB IDs decide when both are known; otherwise a product text
/// naming the CH32 chip does.
pub open spec fn matches_target_usb_spec(vid: Option<u16>, pid: Option<u16>, text: Option<Seq<char>>) -> bool {
    if vid == Some(TARGET_VID) && pid == Some(TARGET_PID) {
        true
    } else if vid is Some && pid is Some {
        false
    } else {
        match text {
            None => false,
            Some(t) => contains_text(lowered(t), "ch32"@) || contains_text(lowered(t), "ch32x035"@),
        }
    }
}

pub fn matches_target_usb(vid: Option<u16>, pid: Option<u16>, text: Option<&str>) -> (r: bool)
    ensures
        r == matches_target_usb_spec(
            vid,
            pid,
            match text {
                Some(t) => Some(t@),
                None => None,
            },
        ),
{
    if vid == Some(TARGET_VID) && pid == Some(TARGET_PID) {
        return true;
    }
    if vid.is_some() && pid.is_some() {
        return false;
    }
    match text {
        None => false,
        Some(text) => {
            let lower = to_ascii_lowercase(text);
            str_contains(lower.as_str(), "ch32") || str_contains(lower.as_str(), "ch32x035")
        },
    }
}

/// What the port enumeration reports about a USB serial port.
#[derive(Debug, Clone, PartialEq, Eq)]
pub struct UsbPortDetails {
    pub vid: u16,
    pub pid: u16,
    pub serial_number: Option<String>,
    pub manufacturer: Option<String>,
    pub product: Option<String>,
}

/// The kind of a listed port; for a port that is not USB, its description.
#[derive(Debug, Clone, PartialEq, Eq)]
pub enum PortKind {
    Usb(UsbPortDetails),
    Other(String),
}

/// One entry of the serial port enumeration.
#[derive(Debug, Clone, PartialEq, Eq)]
pub struct PortListing {
    pub port_name: String,
    pub kind: PortKind,
}

pub open spec fn opt_view(o: Option<String>) -> Option<Seq<char>> {
    match o {
        Some(s) => Some(s@),
        None => None,
    }
}

/// The text a USB port is recognised by: its product, else its
/// manufacturer, else its serial number.
pub open spec fn usb_text(usb: UsbPortDetails) -> Option<Seq<char>> {
    match usb.product {
        Some(p) => Some(p@),
        None => match usb.manufacturer {
            Some(m) => Some(m@),
            None => opt_view(usb.serial_number),
        },
    }
}

pub ghost struct DeviceView {
    pub port_name: Seq<char>,
    pub vid_pid: Option<Seq<char>>,
    pub product: Option<Seq<char>>,
    pub serial: Option<Seq<char>>,
}

impl View for DeviceInfo {
    type V = DeviceView;

    open spec fn view(&self) -> DeviceView {
        DeviceView {
            port_name: self.port_name@,
            vid_pid: opt_view(self.vid_pid),
            product: opt_view(self.product),
            serial: opt_view(self.serial),
        }
    }
}

/// The device a listed port stands for, if it is the screen.
pub open spec fn info_from_port_spec(port: PortListing) -> Option<DeviceView> {
    match port.kind {
        PortKind::Usb(usb) => if matches_target_usb_spec(Some(usb.vid), Some(usb.pid), usb_text(usb)) {
            Some(
                DeviceView {
                    port_name: port.port_name@,
                    vid_pid: Some(hex4(usb.vid) + ":"@ + hex4(usb.pid)),
                    product: opt_view(usb.product),
                    serial: opt_view(usb.serial_number),
                },
            )
        } else {
            None
        },
        PortKind::Other(text) => if matches_target_usb_spec(None, None, Some(text@)) {
            Some(DeviceView { port_name: port.port_name@, vid_pid: None, product: Some(text@), serial: None })
        } else {
            None
        },
    }
}

fn copy_opt(o: &Option<String>) -> (r: Option<String>)
    ensures
        opt_view(r) == opt_view(*o),
{
    match o {
        Some(s) => Some(string_of(s.as_str())),
        None => None,
    }
}

pub fn info_from_port(port: &PortListing) -> (r: Option<DeviceInfo>)
    ensures
        match r {
            Some(d) => info_from_port_spec(*port) == Some(d@),
            None => info_from_port_spec(*port) is None,
        },
{
    match &port.kind {
        PortKind::Usb(usb) => {
            let text: Option<&str> = match &usb.product {
                Some(p) => Some(p.as_str()),
                None => match &usb.manufacturer {
                    Some(m) => Some(m.as_str()),
                    None => match &usb.serial_number {
                        Some(s) => Some(s.as_str()),
                        None => None,
                    },
                },
            };
            if !matches_target_usb(Some(usb.vid), Some(usb.pid), text) {
                return None;
            }
            let mut vid_pid = String::new();
            push_hex4(&mut vid_pid, usb.vid);
            push_str(&mut vid_pid, ":");
            push_hex4(&mut vid_pid, usb.pid);
            Some(
                DeviceInfo {
                    port_name: string_of(port.port_name.as_str()),
                    vid_pid: Some(vid_pid),
                    product: copy_opt(&usb.product),
                    serial: copy_opt(&usb.serial_number),
                },
            )
        },
        PortKind::Other(text) => {
            if !matches_target_usb(None, None, Some(text.as_str())) {
                return None;
            }
            Some(
                DeviceInfo {
                    port_name: string_of(port.port_name.as_str()),
                    vid_pid: None,
                    product: Some(string_of(text.as_str())),
                    serial: None,
                },
            )
        },
    }
}

/// The screens among the listed ports, in listing order.
pub open spec fn candidates_spec(ports: Seq<PortListing>) -> Seq<DeviceView>
    decreases ports.len(),
{
    if ports.len() == 0 {
        seq![]
    } else {
        let rest = candidates_spec(ports.drop_last());
        match info_from_port_spec(ports.last()) {
            Some(d) => rest.push(d),
            None => rest,
        }
    }
}

pub open spec fn device_views(v: Seq<DeviceInfo>) -> Seq<DeviceView> {
    v.map_values(|d: DeviceInfo| d@)
}

/// Picks the screens out of the serial port enumeration.
pub fn scan_candidates(ports: &[PortListing]) -> (r: Vec<DeviceInfo>)
    ensures
        device_views(r@) == candidates_spec(ports@),
{
    let mut out: Vec<DeviceInfo> = Vec::new();
    let mut i: usize = 0;
    while i < ports.len()
        invariant
            i <= ports@.len(),
            device_views(out@) == candidates_spec(ports@.subrange(0, i as int)),
        decreases ports@.len() - i,
    {
        assert(ports@.subrange(0, i + 1).drop_last() =~= ports@.subrange(0, i as int));
        match info_from_port(&ports[i]) {
            Some(d) => {
                out.push(d);
            },
            None => {},
        }
        assert(device_views(out@) =~= candidates_spec(ports@.subrange(0, i + 1)));
        i = i + 1;
    }
    assert(ports@.subrange(0, ports@.len() as int) =~= ports@);
    out
}

/// The handshake succeeded when the screen echoed it somewhere in its reply.
pub fn handshake_reply_result(reply: &[u8]) -> (r: AppResult<()>)
    ensures
        r is Ok <==> contains_seq(reply@, HANDSHAKE@),
        r matches Err(e) ==> e == AppError::HandshakeFailed,
{
    if contains_sequence(reply, &HANDSHAKE) {
        Ok(())
    } else {
        Err(AppError::HandshakeFailed)
    }
}

/// Drains stale input (a 200 ms read), sends the handshake, reads the reply
/// (300 ms) and checks the echo; the first failing port call ends it with
/// its error.
pub fn handshake<P: PortIo>(port: &mut P) -> (r: AppResult<()>)
    ensures
        exists|p1: &mut P, v1: AppResult<Vec<u8>>|
            #[trigger] call_ensures(P::read_idle, (p1, 200u64, 40u64), v1) && *p1 == *old(port) && match v1 {
                Err(e) => r == Err::<(), AppError>(e) && *final(port) == *final(p1),
                Ok(_) => exists|p2: &mut P, b: &[u8], w: AppResult<()>|
                    #[trigger] call_ensures(P::write_all, (p2, b), w) && *p2 == *final(p1) && b@ == HANDSHAKE@
                        && match w {
                        Err(e) => r == Err::<(), AppError>(e) && *final(port) == *final(p2),
                        Ok(_) => exists|p3: &mut P, v3: AppResult<Vec<u8>>|
                            #[trigger] call_ensures(P::read_idle, (p3, 300u64, 40u64), v3) && *p3 == *final(p2)
                                && *final(port) == *final(p3) && match v3 {
                                Err(e) => r == Err::<(), AppError>(e),
                                Ok(reply) => (r is Ok <==> contains_seq(reply@, HANDSHAKE@)) && (r matches Err(e)
                                    ==> e == AppError::HandshakeFailed),
                            },
                    },
            },
{
    port.read_idle(200, 40)?;
    port.write_all(&HANDSHAKE)?;
    let reply = port.read_idle(300, 40)?;
    handshake_reply_result(reply.as_slice())
}

/// `now + delay`, saturating.
pub open spec fn later_ms(now_ms: u64, delay_ms: u64) -> u64 {
    if now_ms + delay_ms <= u64::MAX {
        (now_ms + delay_ms) as u64
    } else {
        u64::MAX
    }
}

fn add_ms(now_ms: u64, delay_ms: u64) -> (r: u64)
    ensures
        r == later_ms(now_ms, delay_ms),
{
    if now_ms <= u64::MAX - delay_ms {
        now_ms + delay_ms
    } else {
        u64::MAX
    }
}

/// A read that ends at an overall deadline, or once no byte has come for the
/// idle time after the last one. The idle clock only starts with the first
/// byte.
pub struct IdleRead {
    deadline_ms: u64,
    idle_ms: u64,
    idle_deadline: Option<u64>,
    out: Vec<u8>,
}

impl IdleRead {
    pub closed spec fn deadline(&self) -> u64 {
        self.deadline_ms
    }

    pub closed spec fn idle_deadline(&self) -> Option<u64> {
        self.idle_deadline
    }

    pub closed spec fn idle_ms(&self) -> u64 {
        self.idle_ms
    }

    pub closed spec fn received_bytes(&self) -> Seq<u8> {
        self.out@
    }

    pub fn new(now_ms: u64, total_ms: u64, idle_ms: u64) -> (r: IdleRead)
        ensures
            r.deadline() == later_ms(now_ms, total_ms),
            r.idle_ms() == idle_ms,
            r.idle_deadline() is None,
            r.received_bytes() == Seq::<u8>::empty(),
    {
        IdleRead { deadline_ms: add_ms(now_ms, total_ms), idle_ms, idle_deadline: None, out: Vec::new() }
    }

    /// Whether the read is over at clock reading `now_ms`.
    pub fn is_finished(&self, now_ms: u64) -> (r: bool)
        ensures
            r == (now_ms >= self.deadline() || (self.idle_deadline() matches Some(idle) && now_ms >= idle)),
    {
        if now_ms >= self.deadline_ms {
            return true;
        }
        match self.idle_deadline {
            Some(idle) => now_ms >= idle,
            None => false,
        }
    }

    /// Takes bytes that arrived at `now_ms` and restarts the idle clock.
    pub fn received(&mut self, bytes: &[u8], now_ms: u64)
        ensures
            final(self).received_bytes() == old(self).received_bytes() + bytes@,
            final(self).idle_deadline() == Some(later_ms(now_ms, old(self).idle_ms())),
            final(self).deadline() == old(self).deadline(),
            final(self).idle_ms() == old(self).idle_ms(),
    {
        let mut i: usize = 0;
        let ghost start = self.out@;
        let ghost deadline = self.deadline_ms;
        let ghost idle = self.idle_ms;
        while i < bytes.len()
            invariant
                i <= bytes@.len(),
                self.deadline_ms == deadline,
                self.idle_ms == idle,
                self.out@ == start + bytes@.subrange(0, i as int),
            decreases bytes@.len() - i,
        {
            self.out.push(bytes[i]);
            assert(start + bytes@.subrange(0, i + 1) =~= (start + bytes@.subrange(0, i as int)).push(bytes@[i as int]));
            i = i + 1;
        }
        assert(bytes@.subrange(0, bytes@.len() as int) =~= bytes@);
        self.idle_deadline = Some(add_ms(now_ms, self.idle_ms));
    }

    /// The bytes read.
    pub fn into_bytes(self) -> (r: Vec<u8>)
        ensures
            r@ == self.received_bytes(),
    {
        self.out
    }
}

} // verus!
