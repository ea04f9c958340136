//! Host-side IP display daemon (`miniboard-ipd`).

pub mod cli;
pub mod daemon;
pub mod device_scan;
pub mod decimal;
pub mod display;
pub mod ip_detect;
pub mod ipv4;
pub mod netlink;
pub mod platform;
pub mod protocol;
pub mod qr_display;
pub mod runtime;
pub mod serial;
pub mod service_install;
pub mod usb_events;
