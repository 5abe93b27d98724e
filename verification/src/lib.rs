//! `ttl`: the verified core of a multi-target, multi-protocol traceroute.
//!
//! Everything that decides or computes lives here: packet construction and
//! parsing, probe correlation, prefix lookup, session comparison, text
//! export, argument rules and the state of the terminal interface. Sockets,
//! files, threads and drawing are the business of the program around it.

pub mod addr;
pub mod cli;
pub mod config;
pub mod export;
pub mod fields;
pub mod flows;
pub mod lookup;
pub mod manager;
pub mod metrics;
pub mod modes;
pub mod prefs;
pub mod probe;
pub mod resolve;
pub mod session;
pub mod state;
pub mod text;
pub mod time;
pub mod trace;
pub mod tui;
pub mod update;
pub mod wire;
