//! Sessions as text.

pub mod colour;
pub mod compare;
pub mod csv;
pub mod diff;
pub mod diff_text;
pub mod json;
pub mod plain;
pub mod report;
pub mod stream;
