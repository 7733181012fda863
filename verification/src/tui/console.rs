//! The terminal console: three kinds of thing, and the layout says which is
//! which. Monitoring stands in the left rail, quick settings in the control
//! layer, working surfaces in tabs, reference in the right rail.

pub mod content;
pub mod facts;
pub mod keys;
pub mod layout;
pub mod model;
pub mod rail;
pub mod readout;
pub mod regions;
pub mod source;
