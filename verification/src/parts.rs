//! The collaborators that the core is built around.

use vstd::prelude::*;

verus! {

/// The types of the collaborators that a dispatcher is assembled from. The
/// core stores them, hands them on and never looks inside.
pub trait Parts {
    /// Resolves a domain and a port to socket endpoints.
    type Resolver;

    /// Runs the handshake with an accepted client.
    type InboundService;

    /// Accepts connections for an inbound.
    type Server;

    /// Runs the handshake with the dialed peer.
    type OutboundService;

    /// Dials for an outbound.
    type Client;

    /// A running accept loop, as the program around the core holds it.
    type Task;
}

} // verus!
