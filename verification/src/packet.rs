//! Destinations and the packets that the two handshakes exchange.

use vstd::prelude::*;

verus! {

/// An IP address as its bits: 32 for version 4, 128 for version 6, most
/// significant octet first.
#[derive(Debug, Clone, Copy, PartialEq, Eq, Structural)]
pub enum IpAddress {
    V4(u32),
    V6(u128),
}

/// A literal socket endpoint: an IP address and a port.
#[derive(Debug, Clone, Copy, PartialEq, Eq, Structural)]
pub struct SocketEndpoint {
    pub ip: IpAddress,
    pub port: u16,
}

/// Whether a flow carries a stream or datagrams. Informational: every flow is
/// spliced as a reliable byte duplex.
#[derive(Debug, Clone, Copy, PartialEq, Eq, Structural)]
pub enum PacketType {
    Tcp,
    Udp,
}

/// Mathematical value of an [`Address`].
pub enum AddressView {
    Domain(Seq<char>),
    Socket(IpAddress),
}

/// Where a flow wants to go: a name still to be resolved, or a literal IP
/// address. A domain is opaque text.
#[derive(Debug, Clone, PartialEq, Eq)]
pub enum Address {
    Domain(String),
    Socket(IpAddress),
}

impl View for Address {
    type V = AddressView;

    open spec fn view(&self) -> AddressView {
        match self {
            Address::Domain(d) => AddressView::Domain(d@),
            Address::Socket(ip) => AddressView::Socket(*ip),
        }
    }
}

/// Mathematical value of a [`ServiceAddress`].
pub struct ServiceAddressView {
    pub addr: AddressView,
    pub port: u16,
}

/// An address and a port.
#[derive(Debug, Clone, PartialEq, Eq)]
pub struct ServiceAddress {
    pub addr: Address,
    pub port: u16,
}

impl View for ServiceAddress {
    type V = ServiceAddressView;

    open spec fn view(&self) -> ServiceAddressView {
        ServiceAddressView { addr: self.addr@, port: self.port }
    }
}

impl ServiceAddress {
    pub fn new(addr: Address, port: u16) -> (a: ServiceAddress)
        ensures
            a == (ServiceAddress { addr, port }),
    {
        ServiceAddress { addr, port }
    }

    /// The literal destination that stands for a resolved endpoint.
    pub open spec fn of_endpoint(e: SocketEndpoint) -> ServiceAddress {
        ServiceAddress { addr: Address::Socket(e.ip), port: e.port }
    }
}

/// What the inbound handshake recovered from the client.
#[derive(Debug, Clone, PartialEq, Eq)]
pub struct InboundPacket {
    pub typ: PacketType,
    /// The destination the client asked for.
    pub dest: ServiceAddress,
    /// The negotiated user or credential, for the log only.
    pub detail: String,
}

/// What the outbound handshake is given.
#[derive(Debug, Clone, PartialEq, Eq)]
pub struct OutboundPacket {
    pub typ: PacketType,
    /// The destination to reach, rewritten to a literal endpoint where the
    /// rule asked for resolution.
    pub dest: ServiceAddress,
}

} // verus!
