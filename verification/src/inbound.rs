//! Inbound registry entry: a transport server and a protocol service under a
//! tag.

use std::sync::Arc;
use vstd::prelude::*;

use crate::error::{InboundError, InboundErrorView};
use crate::parts::Parts;

verus! {

/// An inbound as declared: its tag, and the outcome of building its server
/// and its service from the configuration. A failed build carries the
/// builder's message.
pub struct InboundOption<P: Parts> {
    pub tag: String,
    pub server: Result<P::Server, String>,
    pub service: Result<P::InboundService, String>,
}

/// A configured entry point. Immutable once built; the service and the
/// server are shared by handle.
pub struct Inbound<P: Parts> {
    tag: String,
    svc: Arc<P::InboundService>,
    srv: Arc<P::Server>,
}

impl<P: Parts> Inbound<P> {
    /// The tag as a sequence of characters.
    pub closed spec fn spec_tag(&self) -> Seq<char> {
        self.tag@
    }

    /// The protocol service.
    pub closed spec fn spec_service(&self) -> P::InboundService {
        *self.svc
    }

    /// The transport server.
    pub closed spec fn spec_server(&self) -> P::Server {
        *self.srv
    }

    /// Builds the inbound. The service is looked at first: when both builds
    /// failed, the service's failure is reported.
    pub fn init(in_opt: InboundOption<P>) -> (r: Result<Inbound<P>, InboundError>)
        ensures
            match (in_opt.service, in_opt.server) {
                (Ok(svc), Ok(srv)) => r matches Ok(i) && i.spec_tag() == in_opt.tag@
                    && i.spec_service() == svc && i.spec_server() == srv,
                (Ok(_), Err(m)) => r matches Err(e) && e@ == InboundErrorView::Server(m@),
                (Err(m), _) => r matches Err(e) && e@ == InboundErrorView::Service(m@),
            },
    {
        let svc = match in_opt.service {
            Ok(svc) => svc,
            Err(m) => {
                return Err(InboundError::Service(m));
            },
        };
        let srv = match in_opt.server {
            Ok(srv) => srv,
            Err(m) => {
                return Err(InboundError::Server(m));
            },
        };
        Ok(Inbound { tag: in_opt.tag, svc: Arc::new(svc), srv: Arc::new(srv) })
    }

    pub fn tag(&self) -> (t: &str)
        ensures
            t@ == self.spec_tag(),
    {
        self.tag.as_str()
    }

    pub fn get_tag(&self) -> (t: String)
        ensures
            t@ == self.spec_tag(),
    {
        self.tag.clone()
    }

    pub fn get_service(&self) -> (s: Arc<P::InboundService>)
        ensures
            *s == self.spec_service(),
    {
        self.svc.clone()
    }

    pub fn get_server(&self) -> (s: Arc<P::Server>)
        ensures
            *s == self.spec_server(),
    {
        self.srv.clone()
    }
}

} // verus!
