//! The per-connection pipeline: inbound handshake, optional resolution of
//! the destination, outbound dial, outbound handshake, splice.
//!
//! The pipeline is a state machine. The program around the core performs
//! each action (a handshake, a lookup, a dial, the copy) and reports its
//! outcome as the next event; the machine decides what follows.

use std::sync::Arc;
use std::time::Duration;
use vstd::prelude::*;
use vstd::string::StringExecFns;

use crate::inbound::Inbound;
use crate::outbound::Outbound;
use crate::packet::{
    Address, InboundPacket, OutboundPacket, PacketType, ServiceAddress, SocketEndpoint,
};
use crate::parts::Parts;

verus! {

/// Severity of a log line.
#[derive(Debug, Clone, Copy, PartialEq, Eq, Structural)]
pub enum LogLevel {
    Error,
    Debug,
}

/// Where the idle timer goes relative to the outbound handshake.
#[derive(Debug, Clone, Copy, PartialEq, Eq, Structural)]
pub enum TimerPlacement {
    /// The dialed stream is wrapped first, so that the handshake itself is
    /// subject to the timeout.
    BeforeHandshake,
    /// The client dialed nothing: the service makes the connection during
    /// its handshake, and the stream it returns is wrapped.
    AfterHandshake,
}

/// Why a flow ended before or during the splice. The texts are the
/// collaborators' messages.
#[derive(Debug, Clone, PartialEq, Eq)]
pub enum DropCause {
    /// The inbound handshake failed.
    Inbound(String),
    /// The lookup failed.
    Resolve(String),
    /// The lookup gave no endpoint.
    EmptyResolve,
    /// The outbound client could not dial.
    Client(String),
    /// The outbound handshake failed.
    Outbound(String),
    /// The copy ended with an I/O error.
    Transport(String),
    /// An event reported something that the flow was not waiting for.
    Unexpected,
}

impl DropCause {
    /// Severity: what the client or the resolver broke is an error, what
    /// the far side broke is expected per connection.
    pub open spec fn spec_level(self) -> LogLevel {
        match self {
            DropCause::Inbound(_) => LogLevel::Error,
            DropCause::Resolve(_) => LogLevel::Error,
            DropCause::EmptyResolve => LogLevel::Error,
            DropCause::Client(_) => LogLevel::Debug,
            DropCause::Outbound(_) => LogLevel::Debug,
            DropCause::Transport(_) => LogLevel::Debug,
            DropCause::Unexpected => LogLevel::Error,
        }
    }

    /// The log line of the cause.
    pub open spec fn spec_message(self) -> Seq<char> {
        match self {
            DropCause::Inbound(m) => "[inbound] "@ + m@,
            DropCause::Resolve(m) => "[dns] <resolve> "@ + m@,
            DropCause::EmptyResolve => "[dns] <resolve> empty resolved"@,
            DropCause::Client(m) => "[outbound] <client> "@ + m@,
            DropCause::Outbound(m) => "[outbound] "@ + m@,
            DropCause::Transport(m) => "[transport] "@ + m@,
            DropCause::Unexpected => "[dispatch] unexpected event"@,
        }
    }

    /// Severity at which the cause is logged.
    pub fn level(&self) -> (l: LogLevel)
        ensures
            l == self.spec_level(),
    {
        match self {
            DropCause::Inbound(_) => LogLevel::Error,
            DropCause::Resolve(_) => LogLevel::Error,
            DropCause::EmptyResolve => LogLevel::Error,
            DropCause::Client(_) => LogLevel::Debug,
            DropCause::Outbound(_) => LogLevel::Debug,
            DropCause::Transport(_) => LogLevel::Debug,
            DropCause::Unexpected => LogLevel::Error,
        }
    }

    /// The log line of the cause.
    pub fn message(&self) -> (text: String)
        ensures
            text@ == self.spec_message(),
    {
        match self {
            DropCause::Inbound(m) => String::from_str("[inbound] ").concat(m.as_str()),
            DropCause::Resolve(m) => String::from_str("[dns] <resolve> ").concat(m.as_str()),
            DropCause::EmptyResolve => String::from_str("[dns] <resolve> empty resolved"),
            DropCause::Client(m) => String::from_str("[outbound] <client> ").concat(m.as_str()),
            DropCause::Outbound(m) => String::from_str("[outbound] ").concat(m.as_str()),
            DropCause::Transport(m) => String::from_str("[transport] ").concat(m.as_str()),
            DropCause::Unexpected => String::from_str("[dispatch] unexpected event"),
        }
    }
}

/// How far a flow has come.
#[derive(Debug, Clone, PartialEq, Eq)]
pub enum Stage {
    /// The connection was accepted; the inbound handshake is running.
    Accepted,
    /// The lookup of the destination's domain is running.
    Resolving { typ: PacketType },
    /// The outbound client is dialing; `packet` is what the outbound
    /// handshake will be given.
    Dialing { packet: OutboundPacket },
    /// The outbound handshake is running.
    Greeting,
    /// The two streams are being spliced.
    Splicing,
    /// The flow is over.
    Closed,
}

/// The outcome of the action that the flow asked for last.
#[derive(Debug, PartialEq, Eq)]
pub enum FlowEvent {
    /// The inbound handshake ended.
    Inbound(Result<InboundPacket, String>),
    /// The lookup ended, with the endpoints in the resolver's order.
    Resolved(Result<Vec<SocketEndpoint>, String>),
    /// The dial ended; `true` for a null stream that stands for no
    /// connection yet.
    Connected(Result<bool, String>),
    /// The outbound handshake ended.
    Outbound(Result<(), String>),
    /// The copy ended, with the bytes moved from the inbound side to the
    /// outbound side and back.
    Spliced(Result<(u64, u64), String>),
}

/// What the program around the core does next.
#[derive(Debug, Clone, PartialEq, Eq)]
pub enum FlowAction {
    /// Resolve the domain with the rule's resolver.
    Resolve { domain: String, port: u16 },
    /// Dial with the outbound's client.
    Connect,
    /// Run the outbound handshake with `packet`, and wrap the stream in an
    /// idle timer of `timeout` where `timer` says.
    Handshake { packet: OutboundPacket, timer: TimerPlacement, timeout: Option<Duration> },
    /// Copy in both directions until both are done.
    Splice,
    /// Log the cause and let the connection go.
    Drop(DropCause),
    /// The splice completed; nothing is left to do.
    Finish { a_to_b: u64, b_to_a: u64 },
}

/// The destination handed to the outbound after the inbound handshake,
/// where no lookup is needed: the inbound's destination, untouched.
pub open spec fn forwarded(packet: InboundPacket) -> OutboundPacket {
    OutboundPacket { typ: packet.typ, dest: packet.dest }
}

/// The transition of a flow under a callback that resolves (`resolving`) or
/// not, with the outbound's `timeout`. The steps of one connection are
/// strictly sequential: an event that reports anything but the action the
/// flow is waiting for ends it.
pub open spec fn flow_step(
    resolving: bool,
    timeout: Option<Duration>,
    stage: Stage,
    event: FlowEvent,
) -> (Stage, FlowAction) {
    match (stage, event) {
        (Stage::Accepted, FlowEvent::Inbound(Err(m))) => (
            Stage::Closed,
            FlowAction::Drop(DropCause::Inbound(m)),
        ),
        (Stage::Accepted, FlowEvent::Inbound(Ok(packet))) => match packet.dest.addr {
            Address::Domain(domain) if resolving => (
                Stage::Resolving { typ: packet.typ },
                FlowAction::Resolve { domain, port: packet.dest.port },
            ),
            _ => (Stage::Dialing { packet: forwarded(packet) }, FlowAction::Connect),
        },
        (Stage::Resolving { typ }, FlowEvent::Resolved(Err(m))) => (
            Stage::Closed,
            FlowAction::Drop(DropCause::Resolve(m)),
        ),
        (Stage::Resolving { typ }, FlowEvent::Resolved(Ok(endpoints))) => if endpoints@.len()
            == 0 {
            (Stage::Closed, FlowAction::Drop(DropCause::EmptyResolve))
        } else {
            (
                Stage::Dialing {
                    packet: OutboundPacket {
                        typ,
                        dest: ServiceAddress::of_endpoint(endpoints@[0]),
                    },
                },
                FlowAction::Connect,
            )
        },
        (Stage::Dialing { packet }, FlowEvent::Connected(Err(m))) => (
            Stage::Closed,
            FlowAction::Drop(DropCause::Client(m)),
        ),
        (Stage::Dialing { packet }, FlowEvent::Connected(Ok(empty))) => (
            Stage::Greeting,
            FlowAction::Handshake {
                packet,
                timer: if empty {
                    TimerPlacement::AfterHandshake
                } else {
                    TimerPlacement::BeforeHandshake
                },
                timeout,
            },
        ),
        (Stage::Greeting, FlowEvent::Outbound(Err(m))) => (
            Stage::Closed,
            FlowAction::Drop(DropCause::Outbound(m)),
        ),
        (Stage::Greeting, FlowEvent::Outbound(Ok(_))) => (Stage::Splicing, FlowAction::Splice),
        (Stage::Splicing, FlowEvent::Spliced(Err(m))) => (
            Stage::Closed,
            FlowAction::Drop(DropCause::Transport(m)),
        ),
        (Stage::Splicing, FlowEvent::Spliced(Ok(moved))) => (
            Stage::Closed,
            FlowAction::Finish { a_to_b: moved.0, b_to_a: moved.1 },
        ),
        _ => (Stage::Closed, FlowAction::Drop(DropCause::Unexpected)),
    }
}

/// A stage that a resolving callback can be in: once it dials, the
/// destination is a literal endpoint.
pub open spec fn stage_literal(resolving: bool, stage: Stage) -> bool {
    resolving ==> (stage matches Stage::Dialing { packet } ==> packet.dest.addr is Socket)
}

/// One accepted connection on its way through the pipeline.
pub struct Flow {
    stage: Stage,
    resolving: bool,
}

impl Flow {
    /// How far the flow has come.
    pub closed spec fn stage(&self) -> Stage {
        self.stage
    }

    /// Whether the flow belongs to a callback that resolves.
    pub closed spec fn resolving(&self) -> bool {
        self.resolving
    }

    /// A flow under a resolving callback never dials a domain.
    #[verifier::type_invariant]
    spec fn literal(&self) -> bool {
        stage_literal(self.resolving, self.stage)
    }

    /// Whether the flow is over.
    pub fn is_closed(&self) -> (b: bool)
        ensures
            b == (self.stage() is Closed),
    {
        match self.stage {
            Stage::Closed => true,
            _ => false,
        }
    }
}

/// What each accepted connection of one inbound is handled with: the two
/// services, the client, the timeout and, where the rule asks for
/// resolution, the resolver. Cheap to clone: the collaborators are shared.
pub struct DispatchCallback<P: Parts> {
    resolver: Option<Arc<P::Resolver>>,
    in_tag: String,
    in_svc: Arc<P::InboundService>,
    out_tag: String,
    out_svc: Arc<P::OutboundService>,
    out_cli: Arc<P::Client>,
    timeout: Option<Duration>,
}

/// Mathematical value of a [`DispatchCallback`].
pub struct DispatchCallbackView<P: Parts> {
    pub resolver: Option<P::Resolver>,
    pub in_tag: Seq<char>,
    pub in_svc: P::InboundService,
    pub out_tag: Seq<char>,
    pub out_svc: P::OutboundService,
    pub out_cli: P::Client,
    pub timeout: Option<Duration>,
}

impl<P: Parts> View for DispatchCallback<P> {
    type V = DispatchCallbackView<P>;

    closed spec fn view(&self) -> DispatchCallbackView<P> {
        DispatchCallbackView {
            resolver: match self.resolver {
                Some(r) => Some(*r),
                None => None,
            },
            in_tag: self.in_tag@,
            in_svc: *self.in_svc,
            out_tag: self.out_tag@,
            out_svc: *self.out_svc,
            out_cli: *self.out_cli,
            timeout: self.timeout,
        }
    }
}

impl<P: Parts> Clone for DispatchCallback<P> {
    fn clone(&self) -> (c: Self)
        ensures
            c@ == self@,
    {
        DispatchCallback {
            resolver: match &self.resolver {
                Some(r) => Some(r.clone()),
                None => None,
            },
            in_tag: self.in_tag.clone(),
            in_svc: self.in_svc.clone(),
            out_tag: self.out_tag.clone(),
            out_svc: self.out_svc.clone(),
            out_cli: self.out_cli.clone(),
            timeout: self.timeout,
        }
    }
}

impl<P: Parts> DispatchCallback<P> {
    /// Binds the callback to an inbound, an outbound and, where the rule
    /// asks for resolution, the resolver.
    pub fn new(inbound: &Inbound<P>, outbound: &Outbound<P>, resolver: Option<
        Arc<P::Resolver>,
    >) -> (c: Self)
        ensures
            c@ == (DispatchCallbackView::<P> {
                resolver: match resolver {
                    Some(r) => Some(*r),
                    None => None,
                },
                in_tag: inbound.spec_tag(),
                in_svc: inbound.spec_service(),
                out_tag: outbound.spec_tag(),
                out_svc: outbound.spec_service(),
                out_cli: outbound.spec_client(),
                timeout: outbound.spec_timeout(),
            }),
    {
        DispatchCallback {
            resolver,
            in_tag: inbound.get_tag(),
            in_svc: inbound.get_service(),
            out_tag: outbound.get_tag(),
            out_svc: outbound.get_service(),
            out_cli: outbound.get_client(),
            timeout: outbound.timeout(),
        }
    }

    /// The resolver, where the rule asks for resolution.
    pub fn resolver(&self) -> (r: Option<Arc<P::Resolver>>)
        ensures
            match r {
                Some(r) => self@.resolver == Some(*r),
                None => self@.resolver is None,
            },
    {
        match &self.resolver {
            Some(r) => Some(r.clone()),
            None => None,
        }
    }

    pub fn in_tag(&self) -> (t: &str)
        ensures
            t@ == self@.in_tag,
    {
        self.in_tag.as_str()
    }

    pub fn out_tag(&self) -> (t: &str)
        ensures
            t@ == self@.out_tag,
    {
        self.out_tag.as_str()
    }

    pub fn in_service(&self) -> (s: Arc<P::InboundService>)
        ensures
            *s == self@.in_svc,
    {
        self.in_svc.clone()
    }

    pub fn out_service(&self) -> (s: Arc<P::OutboundService>)
        ensures
            *s == self@.out_svc,
    {
        self.out_svc.clone()
    }

    pub fn out_client(&self) -> (c: Arc<P::Client>)
        ensures
            *c == self@.out_cli,
    {
        self.out_cli.clone()
    }

    pub fn timeout(&self) -> (t: Option<Duration>)
        ensures
            t == self@.timeout,
    {
        self.timeout
    }

    /// A flow for a connection that was just accepted under this callback.
    pub fn accept(&self) -> (flow: Flow)
        ensures
            flow.stage() == Stage::Accepted,
            flow.resolving() == (self@.resolver is Some),
    {
        Flow { stage: Stage::Accepted, resolving: self.resolver.is_some() }
    }

    /// Advances `flow` by the outcome of the action it asked for last, and
    /// says what to do next.
    ///
    /// After the inbound handshake the destination is resolved if and only
    /// if the flow's callback has a resolver and the destination is a
    /// domain; the first endpoint replaces it, and a lookup without
    /// endpoints ends the flow. Every failure ends the flow with its cause.
    pub fn handle(&self, flow: &mut Flow, event: FlowEvent) -> (action: FlowAction)
        ensures
            (final(flow).stage(), action) == flow_step(
                old(flow).resolving(),
                self@.timeout,
                old(flow).stage(),
                event,
            ),
            final(flow).resolving() == old(flow).resolving(),
            old(flow).resolving() ==> (action matches FlowAction::Handshake { packet, .. }
                ==> packet.dest.addr is Socket),
    {
        proof {
            use_type_invariant(&*flow);
        }
        let mut stage = Stage::Closed;
        core::mem::swap(&mut flow.stage, &mut stage);
        match (stage, event) {
            (Stage::Accepted, FlowEvent::Inbound(Err(m))) => FlowAction::Drop(
                DropCause::Inbound(m),
            ),
            (Stage::Accepted, FlowEvent::Inbound(Ok(packet))) => {
                let InboundPacket { typ, dest, detail: _ } = packet;
                let ServiceAddress { addr, port } = dest;
                match addr {
                    Address::Domain(domain) => {
                        if flow.resolving {
                            flow.stage = Stage::Resolving { typ };
                            FlowAction::Resolve { domain, port }
                        } else {
                            flow.stage = Stage::Dialing {
                                packet: OutboundPacket {
                                    typ,
                                    dest: ServiceAddress { addr: Address::Domain(domain), port },
                                },
                            };
                            FlowAction::Connect
                        }
                    },
                    Address::Socket(ip) => {
                        flow.stage = Stage::Dialing {
                            packet: OutboundPacket {
                                typ,
                                dest: ServiceAddress { addr: Address::Socket(ip), port },
                            },
                        };
                        FlowAction::Connect
                    },
                }
            },
            (Stage::Resolving { typ }, FlowEvent::Resolved(Err(m))) => FlowAction::Drop(
                DropCause::Resolve(m),
            ),
            (Stage::Resolving { typ }, FlowEvent::Resolved(Ok(endpoints))) => {
                if endpoints.len() == 0 {
                    FlowAction::Drop(DropCause::EmptyResolve)
                } else {
                    let first = endpoints[0];
                    flow.stage = Stage::Dialing {
                        packet: OutboundPacket {
                            typ,
                            dest: ServiceAddress::new(Address::Socket(first.ip), first.port),
                        },
                    };
                    FlowAction::Connect
                }
            },
            (Stage::Dialing { packet }, FlowEvent::Connected(Err(m))) => FlowAction::Drop(
                DropCause::Client(m),
            ),
            (Stage::Dialing { packet }, FlowEvent::Connected(Ok(empty))) => {
                flow.stage = Stage::Greeting;
                let timer = if empty {
                    TimerPlacement::AfterHandshake
                } else {
                    TimerPlacement::BeforeHandshake
                };
                FlowAction::Handshake { packet, timer, timeout: self.timeout }
            },
            (Stage::Greeting, FlowEvent::Outbound(Err(m))) => FlowAction::Drop(
                DropCause::Outbound(m),
            ),
            (Stage::Greeting, FlowEvent::Outbound(Ok(_))) => {
                flow.stage = Stage::Splicing;
                FlowAction::Splice
            },
            (Stage::Splicing, FlowEvent::Spliced(Err(m))) => FlowAction::Drop(
                DropCause::Transport(m),
            ),
            (Stage::Splicing, FlowEvent::Spliced(Ok(moved))) => FlowAction::Finish {
                a_to_b: moved.0,
                b_to_a: moved.1,
            },
            _ => FlowAction::Drop(DropCause::Unexpected),
        }
    }

    /// The line logged for a dispatched connection: both service names with
    /// their tags, the handshake's detail, the peer (empty where unknown),
    /// and the kind and destination of the flow.
    pub fn dispatch_line(
        &self,
        in_name: &str,
        out_name: &str,
        detail: &str,
        peer: &str,
        typ: &str,
        dest: &str,
    ) -> (text: String)
        ensures
            text@ == "[dispatch] ["@ + in_name@ + "("@ + self@.in_tag + ") -> "@ + out_name@ + "("@
                + self@.out_tag + ")] (<"@ + detail@ + ">"@ + peer@ + ") "@ + typ@ + "://"@
                + dest@,
    {
        let mut text = String::from_str("[dispatch] [");
        text.append(in_name);
        text.append("(");
        text.append(self.in_tag.as_str());
        text.append(") -> ");
        text.append(out_name);
        text.append("(");
        text.append(self.out_tag.as_str());
        text.append(")] (<");
        text.append(detail);
        text.append(">");
        text.append(peer);
        text.append(") ");
        text.append(typ);
        text.append("://");
        text.append(dest);
        text
    }
}

/// Under a callback that resolves, a domain destination is looked up under
/// the port that the client asked for, and the outbound handshake is given
/// the first endpoint of the answer as a literal destination, whatever the
/// dial returned.
pub proof fn lemma_dns_rewrite(
    timeout: Option<Duration>,
    packet: InboundPacket,
    domain: String,
    endpoints: Vec<SocketEndpoint>,
    empty: bool,
)
    requires
        packet.dest.addr == Address::Domain(domain),
        endpoints@.len() > 0,
    ensures
        ({
            let s1 = flow_step(true, timeout, Stage::Accepted, FlowEvent::Inbound(Ok(packet)));
            let s2 = flow_step(true, timeout, s1.0, FlowEvent::Resolved(Ok(endpoints)));
            let s3 = flow_step(true, timeout, s2.0, FlowEvent::Connected(Ok(empty)));
            &&& s1.1 == FlowAction::Resolve { domain, port: packet.dest.port }
            &&& s2.1 == FlowAction::Connect
            &&& s3.1 matches FlowAction::Handshake { packet: out, .. }
            &&& out.typ == packet.typ
            &&& out.dest == ServiceAddress::of_endpoint(endpoints@[0])
        }),
{
}

/// Under a callback that does not resolve, nothing is looked up and the
/// outbound handshake is given the inbound's destination as it is.
pub proof fn lemma_dns_bypass(timeout: Option<Duration>, packet: InboundPacket, empty: bool)
    ensures
        ({
            let s1 = flow_step(false, timeout, Stage::Accepted, FlowEvent::Inbound(Ok(packet)));
            let s2 = flow_step(false, timeout, s1.0, FlowEvent::Connected(Ok(empty)));
            &&& s1.1 == FlowAction::Connect
            &&& s2.1 matches FlowAction::Handshake { packet: out, .. }
            &&& out.typ == packet.typ
            &&& out.dest == packet.dest
        }),
{
}

/// A lookup is asked for at most once per flow, and only right after the
/// inbound handshake, under a resolving callback, for a domain: no step
/// leads back to the start, and no other step asks for one.
pub proof fn lemma_resolves_once(
    resolving: bool,
    timeout: Option<Duration>,
    stage: Stage,
    event: FlowEvent,
)
    ensures
        ({
            let next = flow_step(resolving, timeout, stage, event);
            &&& !(next.0 is Accepted)
            &&& next.1 is Resolve ==> {
                &&& resolving
                &&& stage is Accepted
                &&& event matches FlowEvent::Inbound(Ok(packet))
                &&& packet.dest.addr is Domain
            }
        }),
{
}

/// Under a resolving callback a flow never dials a domain: every step keeps
/// the destination literal once the flow dials.
pub proof fn lemma_dials_literal(timeout: Option<Duration>, stage: Stage, event: FlowEvent)
    requires
        stage_literal(true, stage),
    ensures
        stage_literal(true, flow_step(true, timeout, stage, event).0),
{
}

} // verus!
