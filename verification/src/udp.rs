//! UDP CAT transport: envelopes, and which of them answers a request.

pub mod codec;
pub mod session;
