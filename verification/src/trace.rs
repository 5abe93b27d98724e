//! Probing: what is sent, what is outstanding, what an answer means.

pub mod engine;
pub mod laws;
pub mod outcomes;
pub mod pending;
pub mod pmtud;
pub mod receiver;
