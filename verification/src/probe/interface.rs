//! Network interfaces to bind probes to.

use crate::addr::{IpAddr, Ipv4Addr, Ipv6Addr};
use vstd::prelude::*;

verus! {

/// An interface, its addresses and its gateways.
#[derive(Debug, Clone)]
pub struct InterfaceInfo {
    pub name: String,
    pub ipv4: Option<Ipv4Addr>,
    pub ipv6: Option<Ipv6Addr>,
    pub gateway_ipv4: Option<Ipv4Addr>,
    pub gateway_ipv6: Option<Ipv6Addr>,
}

impl InterfaceInfo {
    /// Whether the interface has an address of a family.
    pub open spec fn has_family(self, ipv6: bool) -> bool {
        if ipv6 {
            self.ipv6 is Some
        } else {
            self.ipv4 is Some
        }
    }

    /// Whether the interface has an address of a family.
    pub fn supports(&self, ipv6: bool) -> (r: bool)
        ensures
            r == self.has_family(ipv6),
    {
        if ipv6 {
            self.ipv6.is_some()
        } else {
            self.ipv4.is_some()
        }
    }

    /// A copy of the interface.
    pub fn copy(&self) -> (r: InterfaceInfo)
        ensures
            r.name@ == self.name@,
            r == (InterfaceInfo { name: r.name, ..*self }),
    {
        InterfaceInfo {
            name: crate::text::copy_of(self.name.as_str()),
            ipv4: self.ipv4,
            ipv6: self.ipv6,
            gateway_ipv4: self.gateway_ipv4,
            gateway_ipv6: self.gateway_ipv6,
        }
    }

    /// The gateway of a family.
    pub fn gateway(&self, ipv6: bool) -> (r: Option<IpAddr>)
        ensures
            r == (if ipv6 {
                match self.gateway_ipv6 {
                    Some(a) => Some(IpAddr::V6(a)),
                    None => None,
                }
            } else {
                match self.gateway_ipv4 {
                    Some(a) => Some(IpAddr::V4(a)),
                    None => None,
                }
            }),
    {
        if ipv6 {
            match self.gateway_ipv6 {
                Some(a) => Some(IpAddr::V6(a)),
                None => None,
            }
        } else {
            match self.gateway_ipv4 {
                Some(a) => Some(IpAddr::V4(a)),
                None => None,
            }
        }
    }
}

} // verus!
