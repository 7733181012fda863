//! Serial CAT transport: configuration, framing, the completion slot and the
//! cable pin tester.

pub mod baud;
pub mod config;
pub mod dcb;
pub mod error;
pub mod oneshot;
pub mod pin_test;
pub mod port;
pub mod session;
