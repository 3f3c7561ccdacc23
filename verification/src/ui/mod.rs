//! The terminal interface: its state, what each key and click does to it, and
//! what is drawn.

pub mod app;
pub mod cards;
pub mod events;
pub mod log;
pub mod menu;
pub mod render;
pub mod view;

pub use log::LogBuffer;
pub use menu::{MenuAction, MenuItem};
