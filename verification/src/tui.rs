//! The state of the terminal interface and what it shows.

pub mod edit;
pub mod help;
pub mod key;
pub mod keys;
pub mod laws;
pub mod line;
pub mod replay;
pub mod screen;
pub mod settings;
pub mod target_input;
pub mod targets;
pub mod ui;
