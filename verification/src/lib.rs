//! The rules of a foreground-window monitor.
//!
//! Every time another window comes to the front, the switch is recorded in a
//! [`state::MonitorState`]. From the record the library finds rapid switching
//! between two windows, classifies the recent switching, counts how often and
//! how long each window was in front, and decides which alert is due. Reading
//! the desktop and printing belong to the program around the library.

pub mod analysis;
pub mod hooks;
pub mod laws;
pub mod model;
pub mod rules;
pub mod state;
pub mod system;
pub mod time;
pub mod utils;
