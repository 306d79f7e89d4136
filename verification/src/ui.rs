//! The rules of the interface: what is shown for each state of the program, and
//! what each command and event does to that state.

pub mod backend;
pub mod browse;
pub mod cues;
pub mod events;
pub mod files;
pub mod header;
pub mod keys;
pub mod loopback;
pub mod panels;
pub mod reactions;
pub mod requests;
pub mod run;
pub mod scope;
pub mod settings;
pub mod settings_pane;
pub mod showings;
pub mod state;
pub mod widgets;
pub mod workspace;
