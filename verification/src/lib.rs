//! Verified core of the G13 Nexus Logitech G13 suite.
pub mod text;
pub mod uinput;
pub mod strmap;
pub mod config;
pub mod ipc;
pub mod daemon;
pub mod lcd;
pub mod leds;
pub mod input;
pub mod routing;
pub mod labels;
