//! Enrichment of addresses: names, networks, places, exchanges.

pub mod asn;
pub mod batch;
pub mod cache;
pub mod display;
pub mod geo;
pub mod ix;
pub mod rdns;
pub mod trie;
