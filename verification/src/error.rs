//! Error taxonomy of the dispatcher and its collaborators.
//!
//! Failures of collaborators that the core does not look into (a transport
//! server, a protocol service, the resolver) are carried as their message.

use vstd::prelude::*;
use vstd::std_specs::convert::FromSpecImpl;
use vstd::string::StringExecFns;

verus! {

/// `label`, then `payload`, then a closing parenthesis.
fn labelled(label: &str, payload: &String) -> (text: String)
    ensures
        text@ == label@ + payload@ + ")"@,
{
    let mut text = String::from_str(label);
    text.append(payload.as_str());
    text.append(")");
    text
}

/// `prefix`, then `rest`.
fn prefixed(prefix: &str, rest: &String) -> (text: String)
    ensures
        text@ == prefix@ + rest@,
{
    let mut text = String::from_str(prefix);
    text.append(rest.as_str());
    text
}

/// Mathematical value of an [`OptionError`].
pub enum OptionErrorView {
    UnknownTag(Seq<char>),
    DuplicateTag(Seq<char>),
    Serialize(Seq<char>),
    Deserialize(Seq<char>),
}

/// A configuration that cannot be turned into a running dispatcher.
#[derive(Debug, Clone, PartialEq, Eq)]
pub enum OptionError {
    /// A rule names a tag that no inbound or outbound carries.
    UnknownTag(String),
    /// A tag occurs twice in one namespace.
    DuplicateTag(String),
    Serialize(String),
    Deserialize(String),
}

impl View for OptionError {
    type V = OptionErrorView;

    open spec fn view(&self) -> OptionErrorView {
        match self {
            OptionError::UnknownTag(t) => OptionErrorView::UnknownTag(t@),
            OptionError::DuplicateTag(t) => OptionErrorView::DuplicateTag(t@),
            OptionError::Serialize(t) => OptionErrorView::Serialize(t@),
            OptionError::Deserialize(t) => OptionErrorView::Deserialize(t@),
        }
    }
}

impl OptionErrorView {
    /// The text shown for the error: a fixed label, then the payload in
    /// parentheses.
    pub open spec fn message(self) -> Seq<char> {
        match self {
            OptionErrorView::UnknownTag(t) => "unknown tag ("@ + t + ")"@,
            OptionErrorView::DuplicateTag(t) => "duplicate tag ("@ + t + ")"@,
            OptionErrorView::Serialize(t) => "serialize ("@ + t + ")"@,
            OptionErrorView::Deserialize(t) => "deserialize ("@ + t + ")"@,
        }
    }
}

impl OptionError {
    /// The text shown for the error.
    pub fn message(&self) -> (text: String)
        ensures
            text@ == self@.message(),
    {
        match self {
            OptionError::UnknownTag(t) => labelled("unknown tag (", t),
            OptionError::DuplicateTag(t) => labelled("duplicate tag (", t),
            OptionError::Serialize(t) => labelled("serialize (", t),
            OptionError::Deserialize(t) => labelled("deserialize (", t),
        }
    }
}

/// Mathematical value of a [`RouteError`].
pub enum RouteErrorView {
    Option(OptionErrorView),
}

/// Failure to build the route table.
#[derive(Debug, Clone, PartialEq, Eq)]
pub enum RouteError {
    Option(OptionError),
}

impl View for RouteError {
    type V = RouteErrorView;

    open spec fn view(&self) -> RouteErrorView {
        match self {
            RouteError::Option(e) => RouteErrorView::Option(e@),
        }
    }
}

impl RouteErrorView {
    /// The text shown for the error: the part that failed, then its own text.
    pub open spec fn message(self) -> Seq<char> {
        match self {
            RouteErrorView::Option(e) => "<option> "@ + e.message(),
        }
    }
}

impl RouteError {
    /// The text shown for the error.
    pub fn message(&self) -> (text: String)
        ensures
            text@ == self@.message(),
    {
        match self {
            RouteError::Option(e) => prefixed("<option> ", &e.message()),
        }
    }
}

impl From<OptionError> for RouteError {
    fn from(e: OptionError) -> (r: RouteError) {
        RouteError::Option(e)
    }
}

impl FromSpecImpl<OptionError> for RouteError {
    open spec fn obeys_from_spec() -> bool {
        true
    }

    open spec fn from_spec(e: OptionError) -> RouteError {
        RouteError::Option(e)
    }
}

/// Mathematical value of a [`DnsError`].
pub enum DnsErrorView {
    Resolve(Seq<char>),
    Option(OptionErrorView),
    Init(Seq<char>),
}

/// Failure of the DNS layer.
#[derive(Debug, Clone, PartialEq, Eq)]
pub enum DnsError {
    /// A lookup failed; the text is the resolver's message.
    Resolve(String),
    Option(OptionError),
    /// The resolver could not be set up.
    Init(String),
}

impl View for DnsError {
    type V = DnsErrorView;

    open spec fn view(&self) -> DnsErrorView {
        match self {
            DnsError::Resolve(e) => DnsErrorView::Resolve(e@),
            DnsError::Option(e) => DnsErrorView::Option(e@),
            DnsError::Init(e) => DnsErrorView::Init(e@),
        }
    }
}

impl DnsErrorView {
    /// The text shown for the error: the part that failed, then its own text.
    pub open spec fn message(self) -> Seq<char> {
        match self {
            DnsErrorView::Resolve(e) => "<resolve> "@ + e,
            DnsErrorView::Option(e) => "<option> "@ + e.message(),
            DnsErrorView::Init(e) => "<init> "@ + e,
        }
    }
}

impl DnsError {
    /// The text shown for the error.
    pub fn message(&self) -> (text: String)
        ensures
            text@ == self@.message(),
    {
        match self {
            DnsError::Resolve(e) => prefixed("<resolve> ", e),
            DnsError::Option(e) => prefixed("<option> ", &e.message()),
            DnsError::Init(e) => prefixed("<init> ", e),
        }
    }
}

impl From<OptionError> for DnsError {
    fn from(e: OptionError) -> (r: DnsError) {
        DnsError::Option(e)
    }
}

impl FromSpecImpl<OptionError> for DnsError {
    open spec fn obeys_from_spec() -> bool {
        true
    }

    open spec fn from_spec(e: OptionError) -> DnsError {
        DnsError::Option(e)
    }
}

/// Mathematical value of an [`InboundError`].
pub enum InboundErrorView {
    Server(Seq<char>),
    Service(Seq<char>),
    Option(OptionErrorView),
}

/// Failure to build an inbound.
#[derive(Debug, Clone, PartialEq, Eq)]
pub enum InboundError {
    /// The transport server could not be built; the text is its message.
    Server(String),
    /// The protocol service could not be built; the text is its message.
    Service(String),
    Option(OptionError),
}

impl View for InboundError {
    type V = InboundErrorView;

    open spec fn view(&self) -> InboundErrorView {
        match self {
            InboundError::Server(e) => InboundErrorView::Server(e@),
            InboundError::Service(e) => InboundErrorView::Service(e@),
            InboundError::Option(e) => InboundErrorView::Option(e@),
        }
    }
}

impl InboundErrorView {
    /// The text shown for the error: the part that failed, then its own text.
    pub open spec fn message(self) -> Seq<char> {
        match self {
            InboundErrorView::Server(e) => "<server> "@ + e,
            InboundErrorView::Service(e) => "<service> "@ + e,
            InboundErrorView::Option(e) => "<option> "@ + e.message(),
        }
    }
}

impl InboundError {
    /// The text shown for the error.
    pub fn message(&self) -> (text: String)
        ensures
            text@ == self@.message(),
    {
        match self {
            InboundError::Server(e) => prefixed("<server> ", e),
            InboundError::Service(e) => prefixed("<service> ", e),
            InboundError::Option(e) => prefixed("<option> ", &e.message()),
        }
    }
}

impl From<OptionError> for InboundError {
    fn from(e: OptionError) -> (r: InboundError) {
        InboundError::Option(e)
    }
}

impl FromSpecImpl<OptionError> for InboundError {
    open spec fn obeys_from_spec() -> bool {
        true
    }

    open spec fn from_spec(e: OptionError) -> InboundError {
        InboundError::Option(e)
    }
}

/// Mathematical value of an [`OutboundError`].
pub enum OutboundErrorView {
    Client(Seq<char>),
    Service(Seq<char>),
    Option(OptionErrorView),
}

/// Failure to build an outbound.
#[derive(Debug, Clone, PartialEq, Eq)]
pub enum OutboundError {
    /// The transport client could not be built; the text is its message.
    Client(String),
    /// The protocol service could not be built; the text is its message.
    Service(String),
    Option(OptionError),
}

impl View for OutboundError {
    type V = OutboundErrorView;

    open spec fn view(&self) -> OutboundErrorView {
        match self {
            OutboundError::Client(e) => OutboundErrorView::Client(e@),
            OutboundError::Service(e) => OutboundErrorView::Service(e@),
            OutboundError::Option(e) => OutboundErrorView::Option(e@),
        }
    }
}

impl OutboundErrorView {
    /// The text shown for the error: the part that failed, then its own text.
    pub open spec fn message(self) -> Seq<char> {
        match self {
            OutboundErrorView::Client(e) => "<client> "@ + e,
            OutboundErrorView::Service(e) => "<service> "@ + e,
            OutboundErrorView::Option(e) => "<option> "@ + e.message(),
        }
    }
}

impl OutboundError {
    /// The text shown for the error.
    pub fn message(&self) -> (text: String)
        ensures
            text@ == self@.message(),
    {
        match self {
            OutboundError::Client(e) => prefixed("<client> ", e),
            OutboundError::Service(e) => prefixed("<service> ", e),
            OutboundError::Option(e) => prefixed("<option> ", &e.message()),
        }
    }
}

impl From<OptionError> for OutboundError {
    fn from(e: OptionError) -> (r: OutboundError) {
        OutboundError::Option(e)
    }
}

impl FromSpecImpl<OptionError> for OutboundError {
    open spec fn obeys_from_spec() -> bool {
        true
    }

    open spec fn from_spec(e: OptionError) -> OutboundError {
        OutboundError::Option(e)
    }
}

/// Mathematical value of a [`DispatchError`].
pub enum DispatchErrorView {
    Dns(DnsErrorView),
    Inbound(InboundErrorView),
    Outbound(OutboundErrorView),
    Route(RouteErrorView),
    Option(OptionErrorView),
}

/// Failure to build or start the dispatcher.
#[derive(Debug, Clone, PartialEq, Eq)]
pub enum DispatchError {
    Dns(DnsError),
    Inbound(InboundError),
    Outbound(OutboundError),
    Route(RouteError),
    Option(OptionError),
}

impl View for DispatchError {
    type V = DispatchErrorView;

    open spec fn view(&self) -> DispatchErrorView {
        match self {
            DispatchError::Dns(e) => DispatchErrorView::Dns(e@),
            DispatchError::Inbound(e) => DispatchErrorView::Inbound(e@),
            DispatchError::Outbound(e) => DispatchErrorView::Outbound(e@),
            DispatchError::Route(e) => DispatchErrorView::Route(e@),
            DispatchError::Option(e) => DispatchErrorView::Option(e@),
        }
    }
}

impl DispatchErrorView {
    /// The text shown for the error: the part that failed, then its own text.
    pub open spec fn message(self) -> Seq<char> {
        match self {
            DispatchErrorView::Dns(e) => "[dns] "@ + e.message(),
            DispatchErrorView::Inbound(e) => "[inbound] "@ + e.message(),
            DispatchErrorView::Outbound(e) => "[outbound] "@ + e.message(),
            DispatchErrorView::Route(e) => "[route] "@ + e.message(),
            DispatchErrorView::Option(e) => "[option] "@ + e.message(),
        }
    }
}

impl DispatchError {
    /// The text shown for the error.
    pub fn message(&self) -> (text: String)
        ensures
            text@ == self@.message(),
    {
        match self {
            DispatchError::Dns(e) => prefixed("[dns] ", &e.message()),
            DispatchError::Inbound(e) => prefixed("[inbound] ", &e.message()),
            DispatchError::Outbound(e) => prefixed("[outbound] ", &e.message()),
            DispatchError::Route(e) => prefixed("[route] ", &e.message()),
            DispatchError::Option(e) => prefixed("[option] ", &e.message()),
        }
    }
}

impl From<DnsError> for DispatchError {
    fn from(e: DnsError) -> (r: DispatchError) {
        DispatchError::Dns(e)
    }
}

impl FromSpecImpl<DnsError> for DispatchError {
    open spec fn obeys_from_spec() -> bool {
        true
    }

    open spec fn from_spec(e: DnsError) -> DispatchError {
        DispatchError::Dns(e)
    }
}

impl From<InboundError> for DispatchError {
    fn from(e: InboundError) -> (r: DispatchError) {
        DispatchError::Inbound(e)
    }
}

impl FromSpecImpl<InboundError> for DispatchError {
    open spec fn obeys_from_spec() -> bool {
        true
    }

    open spec fn from_spec(e: InboundError) -> DispatchError {
        DispatchError::Inbound(e)
    }
}

impl From<OutboundError> for DispatchError {
    fn from(e: OutboundError) -> (r: DispatchError) {
        DispatchError::Outbound(e)
    }
}

impl FromSpecImpl<OutboundError> for DispatchError {
    open spec fn obeys_from_spec() -> bool {
        true
    }

    open spec fn from_spec(e: OutboundError) -> DispatchError {
        DispatchError::Outbound(e)
    }
}

impl From<RouteError> for DispatchError {
    fn from(e: RouteError) -> (r: DispatchError) {
        DispatchError::Route(e)
    }
}

impl FromSpecImpl<RouteError> for DispatchError {
    open spec fn obeys_from_spec() -> bool {
        true
    }

    open spec fn from_spec(e: RouteError) -> DispatchError {
        DispatchError::Route(e)
    }
}

impl From<OptionError> for DispatchError {
    fn from(e: OptionError) -> (r: DispatchError) {
        DispatchError::Option(e)
    }
}

impl FromSpecImpl<OptionError> for DispatchError {
    open spec fn obeys_from_spec() -> bool {
        true
    }

    open spec fn from_spec(e: OptionError) -> DispatchError {
        DispatchError::Option(e)
    }
}

} // verus!
