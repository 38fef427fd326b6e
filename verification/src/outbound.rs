//! Outbound registry entry: a transport client and a protocol service under
//! a tag, with the timeout applied to each connection.

use std::sync::Arc;
use std::time::Duration;
use vstd::prelude::*;

use crate::error::{OutboundError, OutboundErrorView};
use crate::parts::Parts;

verus! {

/// The duration that `Duration::from_secs` makes of a number of seconds.
pub uninterp spec fn duration_of_secs(secs: u64) -> Duration;

/// `std::time::Duration::from_secs`: the span of that many whole seconds.
/// The result depends on the argument alone and is known by its name only.
#[verifier::external_body]
fn whole_seconds(secs: u64) -> (d: Duration)
    ensures
        d == duration_of_secs(secs),
{
    Duration::from_secs(secs)
}

/// Seconds of the timeout that an outbound gets when none is declared.
pub const DEFAULT_TIMEOUT_SECS: u64 = 30;

/// The timeout of an outbound that declares none: thirty seconds.
pub fn default_timeout() -> (t: Option<Duration>)
    ensures
        t == Some(duration_of_secs(DEFAULT_TIMEOUT_SECS)),
{
    Some(whole_seconds(DEFAULT_TIMEOUT_SECS))
}

/// An outbound as declared: its tag, the outcome of building its client and
/// its service from the configuration, and its timeout. A failed build
/// carries the builder's message.
pub struct OutboundOption<P: Parts> {
    pub tag: String,
    pub client: Result<P::Client, String>,
    pub service: Result<P::OutboundService, String>,
    /// `None` switches the timeout off.
    pub timeout: Option<Duration>,
}

/// A configured exit point. Immutable once built; the service and the client
/// are shared by handle.
pub struct Outbound<P: Parts> {
    tag: String,
    svc: Arc<P::OutboundService>,
    cli: Arc<P::Client>,
    timeout: Option<Duration>,
}

impl<P: Parts> Outbound<P> {
    /// The tag as a sequence of characters.
    pub closed spec fn spec_tag(&self) -> Seq<char> {
        self.tag@
    }

    /// The protocol service.
    pub closed spec fn spec_service(&self) -> P::OutboundService {
        *self.svc
    }

    /// The transport client.
    pub closed spec fn spec_client(&self) -> P::Client {
        *self.cli
    }

    /// The timeout applied to each connection.
    pub closed spec fn spec_timeout(&self) -> Option<Duration> {
        self.timeout
    }

    /// Builds the outbound. The client is looked at first: when both builds
    /// failed, the client's failure is reported.
    pub fn init(out_opt: OutboundOption<P>) -> (r: Result<Outbound<P>, OutboundError>)
        ensures
            match (out_opt.client, out_opt.service) {
                (Ok(cli), Ok(svc)) => r matches Ok(o) && o.spec_tag() == out_opt.tag@
                    && o.spec_service() == svc && o.spec_client() == cli && o.spec_timeout()
                    == out_opt.timeout,
                (Ok(_), Err(m)) => r matches Err(e) && e@ == OutboundErrorView::Service(m@),
                (Err(m), _) => r matches Err(e) && e@ == OutboundErrorView::Client(m@),
            },
    {
        let cli = match out_opt.client {
            Ok(cli) => cli,
            Err(m) => {
                return Err(OutboundError::Client(m));
            },
        };
        let svc = match out_opt.service {
            Ok(svc) => svc,
            Err(m) => {
                return Err(OutboundError::Service(m));
            },
        };
        Ok(
            Outbound {
                tag: out_opt.tag,
                svc: Arc::new(svc),
                cli: Arc::new(cli),
                timeout: out_opt.timeout,
            },
        )
    }

    pub fn tag(&self) -> (t: &str)
        ensures
            t@ == self.spec_tag(),
    {
        self.tag.as_str()
    }

    pub fn get_tag(&self) -> (t: String)
        ensures
            t@ == self.spec_tag(),
    {
        self.tag.clone()
    }

    pub fn get_service(&self) -> (s: Arc<P::OutboundService>)
        ensures
            *s == self.spec_service(),
    {
        self.svc.clone()
    }

    pub fn get_client(&self) -> (c: Arc<P::Client>)
        ensures
            *c == self.spec_client(),
    {
        self.cli.clone()
    }

    pub fn timeout(&self) -> (t: Option<Duration>)
        ensures
            t == self.spec_timeout(),
    {
        self.timeout
    }
}

} // verus!
