//! Device matching of the single-window flasher.

use vstd::prelude::*;

pub use crate::flasher::device::{handshake, handshake_reply_result, DeviceInfo, PortIo, PortKind, PortListing, UsbPortDetails};

use crate::flasher::device::{lowered, opt_view, usb_text, DeviceView};
use crate::hex::{hex4, push_hex4};
use crate::text::{contains_text, push_str, str_contains, string_of, to_ascii_lowercase};

verus! {

pub const TARGET_VID: u16 = 0x1a86;

pub const TARGET_PID: u16 = 0xfe0c;

pub const BAUD_RATE: u32 = 19200;

/// The screen's USB IDs, or a text naming the CH32 chip or the WCH vendor.
pub open spec fn matches_target_usb_spec(vid: Option<u16>, pid: Option<u16>, text: Option<Seq<char>>) -> bool {
    if vid == Some(TARGET_VID) && pid == Some(TARGET_PID) {
        true
    } else {
        match text {
            None => false,
            Some(t) => contains_text(lowered(t), "ch32"@) || contains_text(lowered(t), "ch32x035"@)
                || contains_text(lowered(t), "wch"@),
        }
    }
}

pub fn matches_target_usb(vid: Option<u16>, pid: Option<u16>, text: Option<&str>) -> (r: bool)
    ensures
        r == matches_target_usb_spec(
            vid,
            pid,
            match text {
                Some(t) => Some(t@),
                None => None,
            },
        ),
{
    if vid == Some(TARGET_VID) && pid == Some(TARGET_PID) {
        return true;
    }
    match text {
        None => false,
        Some(text) => {
            let lower = to_ascii_lowercase(text);
            str_contains(lower.as_str(), "ch32") || str_contains(lower.as_str(), "ch32x035") || str_contains(
                lower.as_str(),
                "wch",
            )
        },
    }
}

/// The device a listed port stands for, if it is the screen.
pub open spec fn info_from_port_spec(port: PortListing) -> Option<DeviceView> {
    match port.kind {
        PortKind::Usb(usb) => if matches_target_usb_spec(Some(usb.vid), Some(usb.pid), usb_text(usb)) {
            Some(
                DeviceView {
                    port_name: port.port_name@,
                    vid_pid: Some(hex4(usb.vid) + ":"@ + hex4(usb.pid)),
                    product: opt_view(usb.product),
                    serial: opt_view(usb.serial_number),
                },
            )
        } else {
            None
        },
        PortKind::Other(text) => if matches_target_usb_spec(None, None, Some(text@)) {
            Some(DeviceView { port_name: port.port_name@, vid_pid: None, product: Some(text@), serial: None })
        } else {
            None
        },
    }
}

fn copy_opt(o: &Option<String>) -> (r: Option<String>)
    ensures
        opt_view(r) == opt_view(*o),
{
    match o {
        Some(s) => Some(string_of(s.as_str())),
        None => None,
    }
}

pub fn info_from_port(port: &PortListing) -> (r: Option<DeviceInfo>)
    ensures
        match r {
            Some(d) => info_from_port_spec(*port) == Some(d@),
            None => info_from_port_spec(*port) is None,
        },
{
    match &port.kind {
        PortKind::Usb(usb) => {
            let text: Option<&str> = match &usb.product {
                Some(p) => Some(p.as_str()),
                None => match &usb.manufacturer {
                    Some(m) => Some(m.as_str()),
                    None => match &usb.serial_number {
                        Some(s) => Some(s.as_str()),
                        None => None,
                    },
                },
            };
            if !matches_target_usb(Some(usb.vid), Some(usb.pid), text) {
                return None;
            }
            let mut vid_pid = String::new();
            push_hex4(&mut vid_pid, usb.vid);
            push_str(&mut vid_pid, ":");
            push_hex4(&mut vid_pid, usb.pid);
            Some(
                DeviceInfo {
                    port_name: string_of(port.port_name.as_str()),
                    vid_pid: Some(vid_pid),
                    product: copy_opt(&usb.product),
                    serial: copy_opt(&usb.serial_number),
                },
            )
        },
        PortKind::Other(text) => {
            if !matches_target_usb(None, None, Some(text.as_str())) {
                return None;
            }
            Some(
                DeviceInfo {
                    port_name: string_of(port.port_name.as_str()),
                    vid_pid: None,
                    product: Some(string_of(text.as_str())),
                    serial: None,
                },
            )
        },
    }
}

/// The screens among the listed ports, in listing order.
pub open spec fn candidates_spec(ports: Seq<PortListing>) -> Seq<DeviceView>
    decreases ports.len(),
{
    if ports.len() == 0 {
        seq![]
    } else {
        let rest = candidates_spec(ports.drop_last());
        match info_from_port_spec(ports.last()) {
            Some(d) => rest.push(d),
            None => rest,
        }
    }
}

/// Picks the screens out of the serial port enumeration.
pub fn scan_candidates(ports: &[PortListing]) -> (r: Vec<DeviceInfo>)
    ensures
        crate::flasher::device::device_views(r@) == candidates_spec(ports@),
{
    let mut out: Vec<DeviceInfo> = Vec::new();
    let mut i: usize = 0;
    while i < ports.len()
        invariant
            i <= ports@.len(),
            crate::flasher::device::device_views(out@) == candidates_spec(ports@.subrange(0, i as int)),
        decreases ports@.len() - i,
    {
        assert(ports@.subrange(0, i + 1).drop_last() =~= ports@.subrange(0, i as int));
        match info_from_port(&ports[i]) {
            Some(d) => {
                out.push(d);
            },
            None => {},
        }
        assert(crate::flasher::device::device_views(out@) =~= candidates_spec(ports@.subrange(0, i + 1)));
        i = i + 1;
    }
    assert(ports@.subrange(0, ports@.len() as int) =~= ports@);
    out
}

} // verus!
