//! Desktop flasher logic: writing the fixed resource layout into the screen's flash.

pub mod app_state;
pub mod assets;
pub mod commands;
pub mod device;
pub mod errors;
pub mod flashing;
pub mod protocol;
pub mod screen_status;
pub mod session;
