//! Probe packets: building them and recognising the answers.

pub mod correlate;
pub mod formats;
pub mod icmp;
pub mod interface;
pub mod laws;
pub mod packet;
pub mod quoted;
pub mod rawip;
pub mod socket;
pub mod tcp;
pub mod udp;
