use kapibara::{DispatchError, DnsError, InboundError, OptionError, OutboundError, RouteError};

#[test]
fn option_error_messages() {
    assert_eq!(OptionError::UnknownTag("out-1".to_string()).message(), "unknown tag (out-1)");
    assert_eq!(OptionError::DuplicateTag("in-1".to_string()).message(), "duplicate tag (in-1)");
    assert_eq!(OptionError::Serialize("bad".to_string()).message(), "serialize (bad)");
    assert_eq!(OptionError::Deserialize("eof".to_string()).message(), "deserialize (eof)");
    assert_eq!(OptionError::UnknownTag(String::new()).message(), "unknown tag ()");
}

#[test]
fn route_error_message() {
    let e = RouteError::Option(OptionError::DuplicateTag("out-1".to_string()));
    assert_eq!(e.message(), "<option> duplicate tag (out-1)");
}

#[test]
fn dns_error_messages() {
    assert_eq!(DnsError::Resolve("no answer".to_string()).message(), "<resolve> no answer");
    assert_eq!(DnsError::Init("no server".to_string()).message(), "<init> no server");
    assert_eq!(
        DnsError::Option(OptionError::UnknownTag("x".to_string())).message(),
        "<option> unknown tag (x)"
    );
}

#[test]
fn inbound_error_messages() {
    assert_eq!(InboundError::Server("bind".to_string()).message(), "<server> bind");
    assert_eq!(InboundError::Service("auth".to_string()).message(), "<service> auth");
    assert_eq!(
        InboundError::Option(OptionError::DuplicateTag("in".to_string())).message(),
        "<option> duplicate tag (in)"
    );
}

#[test]
fn outbound_error_messages() {
    assert_eq!(OutboundError::Client("tls".to_string()).message(), "<client> tls");
    assert_eq!(OutboundError::Service("uuid".to_string()).message(), "<service> uuid");
    assert_eq!(
        OutboundError::Option(OptionError::Serialize("s".to_string())).message(),
        "<option> serialize (s)"
    );
}

#[test]
fn dispatch_error_messages() {
    assert_eq!(
        DispatchError::Dns(DnsError::Init("x".to_string())).message(),
        "[dns] <init> x"
    );
    assert_eq!(
        DispatchError::Inbound(InboundError::Server("x".to_string())).message(),
        "[inbound] <server> x"
    );
    assert_eq!(
        DispatchError::Outbound(OutboundError::Client("x".to_string())).message(),
        "[outbound] <client> x"
    );
    assert_eq!(
        DispatchError::Route(RouteError::Option(OptionError::DuplicateTag("o".to_string())))
            .message(),
        "[route] <option> duplicate tag (o)"
    );
    assert_eq!(
        DispatchError::Option(OptionError::UnknownTag("out-missing".to_string())).message(),
        "[option] unknown tag (out-missing)"
    );
}

#[test]
fn errors_convert_into_their_wrappers() {
    let option = OptionError::UnknownTag("t".to_string());
    assert_eq!(RouteError::from(option.clone()), RouteError::Option(option.clone()));
    assert_eq!(DnsError::from(option.clone()), DnsError::Option(option.clone()));
    assert_eq!(InboundError::from(option.clone()), InboundError::Option(option.clone()));
    assert_eq!(OutboundError::from(option.clone()), OutboundError::Option(option.clone()));
    assert_eq!(DispatchError::from(option.clone()), DispatchError::Option(option.clone()));

    let route = RouteError::Option(option.clone());
    assert_eq!(DispatchError::from(route.clone()), DispatchError::Route(route));
    let dns = DnsError::Init("i".to_string());
    assert_eq!(DispatchError::from(dns.clone()), DispatchError::Dns(dns));
    let inbound = InboundError::Service("s".to_string());
    assert_eq!(DispatchError::from(inbound.clone()), DispatchError::Inbound(inbound));
    let outbound = OutboundError::Client("c".to_string());
    assert_eq!(DispatchError::from(outbound.clone()), DispatchError::Outbound(outbound));
}
