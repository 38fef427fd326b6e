//! Core of a configurable, multi-protocol forwarding proxy: the route table,
//! the inbound and outbound registries, the dispatcher that binds them, the
//! per-connection pipeline, the byte-copy engine and the idle timer.
//!
//! Everything here is pure decision logic over plain values. Sockets, tasks
//! and timers are driven by the program around the library, which performs
//! the actions that the state machines ask for and reports what happened.

pub mod error;
pub use error::{DispatchError, DnsError, InboundError, OptionError, OutboundError, RouteError};

pub mod route;
pub use route::{Route, RouteOption, RouteRule, RouteRuleOption};

pub mod packet;
pub use packet::{
    Address, InboundPacket, IpAddress, OutboundPacket, PacketType, ServiceAddress, SocketEndpoint,
};

pub mod parts;
pub use parts::Parts;

pub mod inbound;
pub use inbound::{Inbound, InboundOption};

pub mod outbound;
pub use outbound::{default_timeout, Outbound, OutboundOption};

pub mod dns;
pub use dns::{Dns, DnsOption};

pub mod callback;
pub use callback::{
    DispatchCallback, DropCause, Flow, FlowAction, FlowEvent, LogLevel, Stage, TimerPlacement,
};

pub mod dispatch;
pub use dispatch::{AcceptLoop, Dispatch, DispatchOption, Retry, SERVER_RETRY};

pub mod io;

pub mod codec;
pub use codec::Codec;
