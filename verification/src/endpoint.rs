use vstd::prelude::*;

verus! {

/// A concrete transport endpoint: an IPv4 or IPv6 address together with a
/// TCP port. Addresses are held as raw network-order bytes so that the
/// header codec can speak of them byte for byte.
#[derive(Clone, Copy, Debug, PartialEq, Eq)]
#[allow(inconsistent_fields)]
pub enum Endpoint {
    V4 { ip: [u8; 4], port: u16 },
    V6 { ip: [u8; 16], port: u16 },
}

impl Endpoint {
    /// True when both endpoints hold addresses of the same family.
    pub open spec fn same_family(self, other: Endpoint) -> bool {
        (self is V4 && other is V4) || (self is V6 && other is V6)
    }
}

} // verus!
