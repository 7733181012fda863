//! Verified core of a radio console: CAT transports and the two consoles'
//! drawing decisions.

pub mod bytes;
pub mod gui;
pub mod serial;
pub mod tcp;
pub mod text;
pub mod tui;
pub mod udp;
pub mod ui;
