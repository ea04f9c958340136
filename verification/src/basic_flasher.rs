//! The single-window flasher variant: it also accepts a port whose text
//! names the chip vendor, and keeps only the selected device and the log.

pub mod app_state;
pub mod device;
