//! The terminal console: what each widget shows, cell by cell.

pub mod af;
pub mod bigdigits;
pub mod console;
pub mod devices;
pub mod draw;
pub mod meter;
pub mod panel;
pub mod session;
pub mod settings;
pub mod spectrum;
pub mod vfo;
