//! What the two consoles share: styled text, rectangles, devices, settings.

pub mod device;
pub mod format;
pub mod geometry;
pub mod intensity;
pub mod setting;
pub mod style;
