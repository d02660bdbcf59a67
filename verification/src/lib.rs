//! The logic of Snypr, a screenshot and annotation tool for Wayland compositors.
//!
//! Everything here works on plain values. Talking to compositors, drawing widgets and
//! writing files is left to the program around this library.

pub mod region;
pub mod strings;
pub mod ui;
pub mod wm;
