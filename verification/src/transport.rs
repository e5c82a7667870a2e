//! Peer addresses as plain values.
//!
//! An address names a remote endpoint by the kind of transport it is reached
//! over and by where it lives on that transport. Two addresses that differ
//! only in the kind of transport are two different peers.

use vstd::prelude::*;
use vstd::std_specs::cmp::PartialEqSpecImpl;

verus! {

/// The kind of transport a peer is reached over.
#[derive(Clone, Copy, Debug, PartialEq, Eq, Hash, Structural)]
pub enum TransportProtocol {
    Datagram,
    Stream,
}

/// An internet socket address: the IP address as one integer, the port, and
/// for version 6 the flow information and the scope.
#[derive(Clone, Copy, Debug, PartialEq, Eq, Hash, Structural)]
#[allow(inconsistent_fields)]
pub enum InternetAddress {
    V4 { ip: u32, port: u16 },
    V6 { ip: u128, port: u16, flowinfo: u32, scope_id: u32 },
}

/// A remote endpoint.
///
/// A local socket is named by the bytes of its path; an unnamed local socket
/// has the empty path.
#[derive(Debug, Hash)]
#[allow(inconsistent_fields)]
pub enum PeerAddress {
    Unix { address: Vec<u8>, protocol: TransportProtocol },
    Internet { address: InternetAddress, protocol: TransportProtocol },
}

/// What a `PeerAddress` stands for: the same shape, with the path as a sequence.
#[allow(inconsistent_fields)]
pub ghost enum PeerAddressView {
    Unix { address: Seq<u8>, protocol: TransportProtocol },
    Internet { address: InternetAddress, protocol: TransportProtocol },
}

impl View for PeerAddress {
    type V = PeerAddressView;

    open spec fn view(&self) -> PeerAddressView {
        match *self {
            PeerAddress::Unix { address, protocol } => PeerAddressView::Unix {
                address: address@,
                protocol,
            },
            PeerAddress::Internet { address, protocol } => PeerAddressView::Internet {
                address,
                protocol,
            },
        }
    }
}

/// The socket that bytes for a peer leave through. Local sockets have none.
#[derive(Clone, Copy, Debug, PartialEq, Eq, Structural)]
pub enum Route {
    Datagram { address: InternetAddress },
    Stream { address: InternetAddress },
    Unsupported,
}

impl PeerAddressView {
    /// The kind of transport of the address.
    pub open spec fn protocol(self) -> TransportProtocol {
        match self {
            PeerAddressView::Unix { protocol, .. } => protocol,
            PeerAddressView::Internet { protocol, .. } => protocol,
        }
    }

    /// The socket for the address: that of its kind of transport for an
    /// internet address, none for a local one.
    pub open spec fn route(self) -> Route {
        match self {
            PeerAddressView::Unix { .. } => Route::Unsupported,
            PeerAddressView::Internet {
                address,
                protocol: TransportProtocol::Datagram,
            } => Route::Datagram { address },
            PeerAddressView::Internet {
                address,
                protocol: TransportProtocol::Stream,
            } => Route::Stream { address },
        }
    }
}

impl PeerAddress {
    /// The kind of transport the peer is reached over.
    pub fn protocol(&self) -> (kind: TransportProtocol)
        ensures
            kind == self@.protocol(),
    {
        match self {
            PeerAddress::Unix { protocol, .. } => *protocol,
            PeerAddress::Internet { protocol, .. } => *protocol,
        }
    }

    /// The socket that bytes for this peer leave through.
    pub fn route(&self) -> (route: Route)
        ensures
            route == self@.route(),
    {
        match self {
            PeerAddress::Unix { .. } => Route::Unsupported,
            PeerAddress::Internet { address, protocol } => match protocol {
                TransportProtocol::Datagram => Route::Datagram { address: *address },
                TransportProtocol::Stream => Route::Stream { address: *address },
            },
        }
    }
}

impl Clone for PeerAddress {
    fn clone(&self) -> (copy: PeerAddress)
        ensures
            copy@ == self@,
    {
        match self {
            PeerAddress::Unix { address, protocol } => {
                let path = address.clone();
                assert(path@ =~= address@);
                PeerAddress::Unix { address: path, protocol: *protocol }
            },
            PeerAddress::Internet { address, protocol } => PeerAddress::Internet {
                address: *address,
                protocol: *protocol,
            },
        }
    }
}

impl PartialEq for PeerAddress {
    /// Two addresses are equal when they are of the same family, name the same
    /// place and use the same kind of transport.
    fn eq(&self, other: &PeerAddress) -> (same: bool) {
        match (self, other) {
            (
                PeerAddress::Unix { address: l_address, protocol: l_protocol },
                PeerAddress::Unix { address: r_address, protocol: r_protocol },
            ) => {
                let same_path = l_address == r_address;
                proof {
                    if same_path {
                        assert(l_address@ =~= r_address@);
                    }
                }
                same_path && *l_protocol == *r_protocol
            },
            (
                PeerAddress::Internet { address: l_address, protocol: l_protocol },
                PeerAddress::Internet { address: r_address, protocol: r_protocol },
            ) => *l_address == *r_address && *l_protocol == *r_protocol,
            _ => false,
        }
    }
}

impl PartialEqSpecImpl for PeerAddress {
    open spec fn obeys_eq_spec() -> bool {
        true
    }

    open spec fn eq_spec(&self, other: &PeerAddress) -> bool {
        self@ == other@
    }
}

impl Eq for PeerAddress {

}

/// Bytes on their way from a peer or to one.
#[derive(Clone, Debug, PartialEq, Eq)]
pub struct Message {
    pub address: PeerAddress,
    pub payload: Vec<u8>,
}

} // verus!
