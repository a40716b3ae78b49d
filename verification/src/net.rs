//! Network addresses as plain values.

use vstd::prelude::*;

verus! {

/// An IP address: the four bytes of an IPv4 or the sixteen bytes of an
/// IPv6 address, in network order.
#[derive(Debug, Clone, Copy, PartialEq, Eq, Hash)]
pub enum IpAddr {
    V4([u8; 4]),
    V6([u8; 16]),
}

impl IpAddr {
    /// The IPv4 loopback address, 127.0.0.1.
    pub fn loopback() -> (address: IpAddr)
        ensures
            address matches IpAddr::V4(octets) && octets@ == seq![127u8, 0u8, 0u8, 1u8],
    {
        let octets: [u8; 4] = [127, 0, 0, 1];
        assert(octets@ =~= seq![127u8, 0u8, 0u8, 1u8]);
        IpAddr::V4(octets)
    }
}

} // verus!
