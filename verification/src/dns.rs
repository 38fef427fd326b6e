//! DNS facade: owns one resolver and lends it by handle.

use std::sync::Arc;
use vstd::prelude::*;

use crate::error::DnsError;
use crate::parts::Parts;

verus! {

/// The resolver as built from the declared resolve options or, where none
/// were declared, the default one. Building it performs no network I/O.
pub struct DnsOption<P: Parts> {
    pub resolve: P::Resolver,
}

/// Owner of the resolver.
pub struct Dns<P: Parts> {
    resolver: Arc<P::Resolver>,
}

impl<P: Parts> Dns<P> {
    /// The resolver that is owned.
    pub closed spec fn spec_resolver(&self) -> P::Resolver {
        *self.resolver
    }

    /// Takes ownership of the resolver. Never fails.
    pub fn init(dns_opt: DnsOption<P>) -> (r: Result<Dns<P>, DnsError>)
        ensures
            r matches Ok(dns) && dns.spec_resolver() == dns_opt.resolve,
    {
        Ok(Dns { resolver: Arc::new(dns_opt.resolve) })
    }

    pub fn resolver(&self) -> (r: &P::Resolver)
        ensures
            *r == self.spec_resolver(),
    {
        &self.resolver
    }

    /// A shared handle to the resolver.
    pub fn get_resolver(&self) -> (r: Arc<P::Resolver>)
        ensures
            *r == self.spec_resolver(),
    {
        self.resolver.clone()
    }
}

} // verus!
