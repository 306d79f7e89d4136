//! The OSC vocabulary: addresses, outgoing builders, and the incoming parser.
//!
//! Every message to the Spider runtime and to the daemon starts with the session
//! token as an integer.

pub mod addr;
pub mod incoming;
pub mod out;
pub mod readings;
pub mod requests;

pub use self::incoming::parse_incoming;
