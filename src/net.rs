use vstd::prelude::*;

verus! {

/// Address family numbers of the Linux socket interface.
pub const AF_INET: u16 = 2;

pub const AF_INET6: u16 = 10;

/// A peer's socket address.
#[derive(Clone, Copy, Debug)]
pub enum SocketAddress {
    V4 { ip: [u8; 4], port: u16 },
    V6 { ip: [u8; 16], port: u16, flowinfo: u32, scope_id: u32 },
}

/// A port as it is stored on the wire: most significant byte first.
pub open spec fn port_of(bytes: [u8; 2]) -> u16 {
    (bytes[0] as u16 * 256 + bytes[1] as u16) as u16
}

pub fn port_from_network(bytes: [u8; 2]) -> (r: u16)
    ensures
        r == port_of(bytes),
{
    bytes[0] as u16 * 256 + bytes[1] as u16
}

/// The address an accept reported, from the family, the port bytes (in
/// network order), the address bytes and, for IPv6, the flow and scope
/// fields. `None` for any other family, or address bytes of the wrong size.
pub fn decode_peer(family: u16, port: [u8; 2], ip: &[u8], flowinfo: u32, scope_id: u32) -> (r: Option<
    SocketAddress,
>)
    ensures
        family == AF_INET && ip@.len() == 4 ==> r == Some(
            SocketAddress::V4 { ip: [ip@[0], ip@[1], ip@[2], ip@[3]], port: port_of(port) },
        ),
        family == AF_INET6 && ip@.len() == 16 ==> r is Some && r->0 is V6 && r->0->V6_ip@ == ip@
            && r->0->V6_port == port_of(port) && r->0->V6_flowinfo == flowinfo && r->0->V6_scope_id
            == scope_id,
        !(family == AF_INET && ip@.len() == 4) && !(family == AF_INET6 && ip@.len() == 16) ==> r is None,
{
    let p = port_from_network(port);
    if family == AF_INET && ip.len() == 4 {
        Some(SocketAddress::V4 { ip: [ip[0], ip[1], ip[2], ip[3]], port: p })
    } else if family == AF_INET6 && ip.len() == 16 {
        let mut a = [0u8; 16];
        let mut i: usize = 0;
        while i < 16
            invariant
                ip@.len() == 16,
                0 <= i <= 16,
                a@.len() == 16,
                forall|j: int| 0 <= j < i ==> a@[j] == ip@[j],
            decreases 16 - i,
        {
            a[i] = ip[i];
            i = i + 1;
        }
        assert(a@ =~= ip@);
        Some(SocketAddress::V6 { ip: a, port: p, flowinfo, scope_id })
    } else {
        None
    }
}

impl SocketAddress {
    pub fn is_ipv4(&self) -> (r: bool)
        ensures
            r == (*self is V4),
    {
        matches!(self, SocketAddress::V4 { .. })
    }

    pub fn is_ipv6(&self) -> (r: bool)
        ensures
            r == (*self is V6),
    {
        matches!(self, SocketAddress::V6 { .. })
    }

    /// The family of socket to create to reach this address.
    pub fn domain(&self) -> (r: u16)
        ensures
            *self is V4 ==> r == AF_INET,
            *self is V6 ==> r == AF_INET6,
    {
        match self {
            SocketAddress::V4 { .. } => AF_INET,
            SocketAddress::V6 { .. } => AF_INET6,
        }
    }

    pub fn port(&self) -> (r: u16)
        ensures
            r == match *self {
                SocketAddress::V4 { port, .. } => port,
                SocketAddress::V6 { port, .. } => port,
            },
    {
        match self {
            SocketAddress::V4 { port, .. } => *port,
            SocketAddress::V6 { port, .. } => *port,
        }
    }
}

} // verus!
