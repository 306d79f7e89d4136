//! The core of a Sonic Pi front end: the wire protocol it speaks with the
//! runtime, the way it boots and shuts that runtime down, the shared-memory
//! scope geometry, and the editor, vocabulary and interface rules on top.

pub mod audio;
pub mod client;
pub mod editor;
pub mod error;
pub mod i18n;
pub mod log;
pub mod number;
pub mod order;
pub mod osc;
pub mod pathname;
pub mod paths;
pub mod ports;
pub mod process;
pub mod protocol;
pub mod session;
pub mod session_lock;
pub mod store;
pub mod supervisor;
pub mod table;
pub mod text;
pub mod tutorial;
pub mod ui;
pub mod utf8;
pub mod vocab;
pub mod watchdog;
