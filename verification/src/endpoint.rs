//! Where a peer can be reached, and the public keys that say who it is.

use crate::linear_map::Key;
use crate::transport::UnderlayTransportId;
use vstd::prelude::*;

verus! {

impl<const N: usize> Key for [u8; N] {
    fn same(&self, other: &Self) -> (r: bool) {
        let mut i: usize = 0;
        while i < N
            invariant
                i <= N,
                forall|j: int| 0 <= j < i ==> self@[j] == other@[j],
            decreases N - i,
        {
            if self[i] != other[i] {
                return false;
            }
            i += 1;
        }
        assert(*self =~= *other);
        true
    }
}

/// The public key that a peer signs its disco messages with.
#[derive(Debug, Copy, Clone, PartialEq, Eq, Hash)]
pub struct DiscoPublicKey(pub [u8; 32]);

impl Key for DiscoPublicKey {
    fn same(&self, other: &Self) -> (r: bool) {
        self.0.same(&other.0)
    }
}

/// The public key that identifies a node.
#[derive(Debug, Copy, Clone, PartialEq, Eq, Hash)]
pub struct NodePublicKey(pub [u8; 32]);

impl Key for NodePublicKey {
    fn same(&self, other: &Self) -> (r: bool) {
        self.0.same(&other.0)
    }
}

/// An IP address and port.
#[derive(Debug, Copy, Clone, PartialEq, Eq, Hash, Structural)]
pub enum SocketAddress {
    /// An IPv4 address, as the number that its four bytes make up, and a port.
    V4 { ipv4: u32, port: u16 },
    /// An IPv6 address, as the number that its sixteen bytes make up, and a port, with the
    /// flow information and scope that go with it.
    V6 { ipv6: u128, port: u16, flowinfo: u32, scope_id: u32 },
}

impl Key for SocketAddress {
    fn same(&self, other: &Self) -> (r: bool) {
        *self == *other
    }
}

/// An endpoint at which a peer can be reached, whatever transport it belongs to.
#[derive(Debug, Copy, Clone, PartialEq, Eq, Hash)]
pub enum DynEndpoint {
    /// A UDP socket.
    Udp(SocketAddress),
    /// The DERP relay of the node with this key.
    Derp(NodePublicKey),
    /// An endpoint of some other transport: what tells it from others, and whether it can be
    /// used for disco coordination.
    Other { id: u64, disco_coordinator: bool },
}

impl DynEndpoint {
    /// The endpoint of a UDP socket.
    pub fn udp(addr: SocketAddress) -> (ep: Self)
        ensures
            ep == DynEndpoint::Udp(addr),
    {
        DynEndpoint::Udp(addr)
    }

    /// The endpoint of a node on its DERP relay.
    pub fn derp(key: NodePublicKey) -> (ep: Self)
        ensures
            ep == DynEndpoint::Derp(key),
    {
        DynEndpoint::Derp(key)
    }

    /// Whether `CallMeMaybe` messages can be sent here. Such an endpoint is not probed: pings go
    /// to the others only.
    pub open spec fn coordinates(self) -> bool {
        match self {
            DynEndpoint::Udp(_) => false,
            DynEndpoint::Derp(_) => true,
            DynEndpoint::Other { disco_coordinator, .. } => disco_coordinator,
        }
    }

    /// Whether `CallMeMaybe` messages can be sent here.
    pub fn is_disco_coordinator(&self) -> (r: bool)
        ensures
            r == self.coordinates(),
    {
        match self {
            DynEndpoint::Udp(_) => false,
            DynEndpoint::Derp(_) => true,
            DynEndpoint::Other { disco_coordinator, .. } => *disco_coordinator,
        }
    }
}

impl Key for DynEndpoint {
    fn same(&self, other: &Self) -> (r: bool) {
        match (self, other) {
            (DynEndpoint::Udp(a), DynEndpoint::Udp(b)) => a.same(b),
            (DynEndpoint::Derp(a), DynEndpoint::Derp(b)) => a.same(b),
            (
                DynEndpoint::Other { id: a, disco_coordinator: x },
                DynEndpoint::Other { id: b, disco_coordinator: y },
            ) => *a == *b && *x == *y,
            _ => false,
        }
    }
}

impl Key for (UnderlayTransportId, DynEndpoint) {
    fn same(&self, other: &Self) -> (r: bool) {
        self.0.same(&other.0) && self.1.same(&other.1)
    }
}

/// The endpoint of a UDP socket is that of its address, and the endpoint of a node on its relay is
/// that of its key.
pub proof fn law_endpoints_keep_what_they_are_made_of(
    addr: SocketAddress,
    key: NodePublicKey,
    udp: DynEndpoint,
    derp: DynEndpoint,
)
    requires
        call_ensures(DynEndpoint::udp, (addr,), udp),
        call_ensures(DynEndpoint::derp, (key,), derp),
    ensures
        udp is Udp && udp->Udp_0 == addr,
        derp is Derp && derp->Derp_0 == key,
{
}

/// A DERP relay can always be used for disco coordination, a UDP socket never, and an endpoint of
/// another transport exactly if it says so.
pub proof fn law_relays_coordinate(ep: DynEndpoint, r: bool)
    requires
        call_ensures(DynEndpoint::is_disco_coordinator, (&ep,), r),
    ensures
        ep is Derp ==> r,
        ep is Udp ==> !r,
        ep is Other ==> r == ep->disco_coordinator,
{
}

} // verus!
