//! The graphical console: what it shows and how it changes.

pub mod actions;
pub mod console;
pub mod devices;
pub mod events;
pub mod layout;
pub mod meter;
pub mod model;
pub mod panels;
pub mod readout;
pub mod ring;
pub mod settings;
pub mod theme;
pub mod trace;
pub mod waterfall;
pub mod widgets;
