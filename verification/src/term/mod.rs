//! The document that a command shows, and how it is laid out as styled text.

pub mod fmt;
pub mod node;
pub mod progress;
pub mod render;
pub mod ui;
