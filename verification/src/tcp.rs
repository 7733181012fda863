//! TCP CAT transport: length-prefixed frames.

pub mod codec;
pub mod session;
