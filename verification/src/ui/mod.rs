//! The state and the rules behind Snypr's windows.

pub mod canvas;
pub mod canvas_events;
pub mod caret;
pub mod countdown;
pub mod editor;
pub mod keys;
pub mod overlay;
pub mod paint;
pub mod picture;
pub mod save;
pub mod select;
pub mod selector;
pub mod session;
pub mod sinks;
pub mod text_edit;
pub mod toolbar;
pub mod toolbar_host;
pub mod tools;
pub mod tray;
