//! Verified core of a Bluetooth HID relay between a game controller and a
//! console, which also turns rumble reports into toy vibration commands.
pub mod text;
pub mod bt_addr;
pub mod hexdump;
pub mod relay;
pub mod controllers;
pub mod smol_fd;
pub mod haptics;
