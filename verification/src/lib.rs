//! Verified core of the MSU2 MINI USB screen tools: the serial wire protocol,
//! the host-side IP display daemon logic and the desktop flasher logic.

pub mod basic_flasher;
pub mod frame;
pub mod hex;
pub mod host;
pub mod seqs;
pub mod flasher;
pub mod text;
