use std::sync::Arc;
use std::time::Duration;

use kapibara::{
    Address, DispatchCallback, DropCause, Flow, FlowAction, FlowEvent, Inbound, InboundOption,
    InboundPacket, IpAddress, LogLevel, Outbound, OutboundOption, OutboundPacket, PacketType,
    Parts, ServiceAddress, SocketEndpoint, TimerPlacement,
};

struct Names;

impl Parts for Names {
    type Resolver = &'static str;
    type InboundService = &'static str;
    type Server = &'static str;
    type OutboundService = &'static str;
    type Client = &'static str;
    type Task = u32;
}

const LOCALHOST: IpAddress = IpAddress::V4(0x7f00_0001);

fn callback(resolver: Option<&'static str>, timeout: Option<Duration>) -> DispatchCallback<Names> {
    let inbound = Inbound::<Names>::init(InboundOption {
        tag: "in-tcp".to_string(),
        server: Ok("tcp"),
        service: Ok("socks"),
    })
    .ok()
    .unwrap();
    let outbound = Outbound::<Names>::init(OutboundOption {
        tag: "out-direct".to_string(),
        client: Ok("empty"),
        service: Ok("direct"),
        timeout,
    })
    .ok()
    .unwrap();
    DispatchCallback::new(&inbound, &outbound, resolver.map(Arc::new))
}

fn to_domain(domain: &str, port: u16) -> InboundPacket {
    InboundPacket {
        typ: PacketType::Tcp,
        dest: ServiceAddress::new(Address::Domain(domain.to_string()), port),
        detail: "anonymous".to_string(),
    }
}

fn to_socket(ip: IpAddress, port: u16, typ: PacketType) -> InboundPacket {
    InboundPacket {
        typ,
        dest: ServiceAddress::new(Address::Socket(ip), port),
        detail: "anonymous".to_string(),
    }
}

/// A flow that has come as far as the outbound handshake.
fn greeting(cb: &DispatchCallback<Names>) -> Flow {
    let mut flow = cb.accept();
    cb.handle(&mut flow, FlowEvent::Inbound(Ok(to_socket(LOCALHOST, 80, PacketType::Tcp))));
    cb.handle(&mut flow, FlowEvent::Connected(Ok(true)));
    flow
}

#[test]
fn callback_is_bound_to_its_inbound_and_outbound() {
    let cb = callback(Some("system"), Some(Duration::from_secs(5)));
    assert_eq!(cb.in_tag(), "in-tcp");
    assert_eq!(cb.out_tag(), "out-direct");
    assert_eq!(*cb.in_service(), "socks");
    assert_eq!(*cb.out_service(), "direct");
    assert_eq!(*cb.out_client(), "empty");
    assert_eq!(cb.timeout(), Some(Duration::from_secs(5)));
    assert_eq!(cb.resolver().map(|r| *r), Some("system"));

    let copy = cb.clone();
    assert_eq!(copy.in_tag(), "in-tcp");
    assert_eq!(copy.out_tag(), "out-direct");
    assert_eq!(copy.timeout(), Some(Duration::from_secs(5)));
    assert_eq!(copy.resolver().map(|r| *r), Some("system"));

    assert_eq!(callback(None, None).resolver(), None);
}

#[test]
fn straight_splice_without_dns() {
    let cb = callback(None, Some(Duration::from_secs(5)));
    let mut flow = cb.accept();
    let packet = to_socket(LOCALHOST, 4000, PacketType::Tcp);

    assert_eq!(cb.handle(&mut flow, FlowEvent::Inbound(Ok(packet))), FlowAction::Connect);
    assert_eq!(
        cb.handle(&mut flow, FlowEvent::Connected(Ok(true))),
        FlowAction::Handshake {
            packet: OutboundPacket {
                typ: PacketType::Tcp,
                dest: ServiceAddress::new(Address::Socket(LOCALHOST), 4000),
            },
            timer: TimerPlacement::AfterHandshake,
            timeout: Some(Duration::from_secs(5)),
        }
    );
    assert_eq!(cb.handle(&mut flow, FlowEvent::Outbound(Ok(()))), FlowAction::Splice);
    assert!(!flow.is_closed());
    assert_eq!(
        cb.handle(&mut flow, FlowEvent::Spliced(Ok((5, 5)))),
        FlowAction::Finish { a_to_b: 5, b_to_a: 5 }
    );
    assert!(flow.is_closed());
}

#[test]
fn domain_is_rewritten_to_first_endpoint() {
    let cb = callback(Some("stub"), Some(Duration::from_secs(5)));
    let mut flow = cb.accept();

    assert_eq!(
        cb.handle(&mut flow, FlowEvent::Inbound(Ok(to_domain("localhost", 4000)))),
        FlowAction::Resolve { domain: "localhost".to_string(), port: 4000 }
    );
    let endpoints = vec![
        SocketEndpoint { ip: LOCALHOST, port: 4000 },
        SocketEndpoint { ip: IpAddress::V6(1), port: 4000 },
    ];
    assert_eq!(cb.handle(&mut flow, FlowEvent::Resolved(Ok(endpoints))), FlowAction::Connect);
    assert_eq!(
        cb.handle(&mut flow, FlowEvent::Connected(Ok(true))),
        FlowAction::Handshake {
            packet: OutboundPacket {
                typ: PacketType::Tcp,
                dest: ServiceAddress::new(Address::Socket(LOCALHOST), 4000),
            },
            timer: TimerPlacement::AfterHandshake,
            timeout: Some(Duration::from_secs(5)),
        }
    );
}

#[test]
fn rewritten_port_is_the_endpoints() {
    let cb = callback(Some("stub"), None);
    let mut flow = cb.accept();
    cb.handle(&mut flow, FlowEvent::Inbound(Ok(to_domain("example.com", 443))));
    cb.handle(
        &mut flow,
        FlowEvent::Resolved(Ok(vec![SocketEndpoint { ip: IpAddress::V6(7), port: 8443 }])),
    );
    assert_eq!(
        cb.handle(&mut flow, FlowEvent::Connected(Ok(false))),
        FlowAction::Handshake {
            packet: OutboundPacket {
                typ: PacketType::Tcp,
                dest: ServiceAddress::new(Address::Socket(IpAddress::V6(7)), 8443),
            },
            timer: TimerPlacement::BeforeHandshake,
            timeout: None,
        }
    );
}

#[test]
fn domain_passes_untouched_without_dns() {
    let cb = callback(None, None);
    let mut flow = cb.accept();

    assert_eq!(
        cb.handle(&mut flow, FlowEvent::Inbound(Ok(to_domain("localhost", 4000)))),
        FlowAction::Connect
    );
    assert_eq!(
        cb.handle(&mut flow, FlowEvent::Connected(Ok(false))),
        FlowAction::Handshake {
            packet: OutboundPacket {
                typ: PacketType::Tcp,
                dest: ServiceAddress::new(Address::Domain("localhost".to_string()), 4000),
            },
            timer: TimerPlacement::BeforeHandshake,
            timeout: None,
        }
    );
}

#[test]
fn literal_destination_is_not_looked_up() {
    let cb = callback(Some("stub"), None);
    let mut flow = cb.accept();

    assert_eq!(
        cb.handle(
            &mut flow,
            FlowEvent::Inbound(Ok(to_socket(IpAddress::V4(0x0a00_0001), 53, PacketType::Udp)))
        ),
        FlowAction::Connect
    );
    assert_eq!(
        cb.handle(&mut flow, FlowEvent::Connected(Ok(false))),
        FlowAction::Handshake {
            packet: OutboundPacket {
                typ: PacketType::Udp,
                dest: ServiceAddress::new(Address::Socket(IpAddress::V4(0x0a00_0001)), 53),
            },
            timer: TimerPlacement::BeforeHandshake,
            timeout: None,
        }
    );
}

#[test]
fn timer_goes_after_handshake_only_for_null_stream() {
    let cb = callback(None, Some(Duration::from_millis(200)));

    let mut flow = cb.accept();
    cb.handle(&mut flow, FlowEvent::Inbound(Ok(to_socket(LOCALHOST, 80, PacketType::Tcp))));
    match cb.handle(&mut flow, FlowEvent::Connected(Ok(true))) {
        FlowAction::Handshake { timer, timeout, .. } => {
            assert_eq!(timer, TimerPlacement::AfterHandshake);
            assert_eq!(timeout, Some(Duration::from_millis(200)));
        }
        other => panic!("no handshake: {:?}", other),
    }

    let mut flow = cb.accept();
    cb.handle(&mut flow, FlowEvent::Inbound(Ok(to_socket(LOCALHOST, 80, PacketType::Tcp))));
    match cb.handle(&mut flow, FlowEvent::Connected(Ok(false))) {
        FlowAction::Handshake { timer, timeout, .. } => {
            assert_eq!(timer, TimerPlacement::BeforeHandshake);
            assert_eq!(timeout, Some(Duration::from_millis(200)));
        }
        other => panic!("no handshake: {:?}", other),
    }
}

#[test]
fn inbound_handshake_failure_is_contained() {
    let cb = callback(Some("stub"), None);

    let mut broken = cb.accept();
    let action = cb.handle(&mut broken, FlowEvent::Inbound(Err("bad version".to_string())));
    assert_eq!(action, FlowAction::Drop(DropCause::Inbound("bad version".to_string())));
    assert!(broken.is_closed());

    let mut next = cb.accept();
    assert!(!next.is_closed());
    assert_eq!(
        cb.handle(&mut next, FlowEvent::Inbound(Ok(to_socket(LOCALHOST, 80, PacketType::Tcp)))),
        FlowAction::Connect
    );
}

#[test]
fn failed_lookup_ends_the_flow() {
    let cb = callback(Some("stub"), None);
    let mut flow = cb.accept();
    cb.handle(&mut flow, FlowEvent::Inbound(Ok(to_domain("nowhere", 1))));
    assert_eq!(
        cb.handle(&mut flow, FlowEvent::Resolved(Err("timeout".to_string()))),
        FlowAction::Drop(DropCause::Resolve("timeout".to_string()))
    );
    assert!(flow.is_closed());
}

#[test]
fn empty_lookup_ends_the_flow() {
    let cb = callback(Some("stub"), None);
    let mut flow = cb.accept();
    cb.handle(&mut flow, FlowEvent::Inbound(Ok(to_domain("nowhere", 1))));
    assert_eq!(
        cb.handle(&mut flow, FlowEvent::Resolved(Ok(vec![]))),
        FlowAction::Drop(DropCause::EmptyResolve)
    );
    assert!(flow.is_closed());
}

#[test]
fn failed_dial_ends_the_flow() {
    let cb = callback(None, None);
    let mut flow = cb.accept();
    cb.handle(&mut flow, FlowEvent::Inbound(Ok(to_socket(LOCALHOST, 80, PacketType::Tcp))));
    assert_eq!(
        cb.handle(&mut flow, FlowEvent::Connected(Err("refused".to_string()))),
        FlowAction::Drop(DropCause::Client("refused".to_string()))
    );
    assert!(flow.is_closed());
}

#[test]
fn failed_outbound_handshake_ends_the_flow() {
    let cb = callback(None, None);
    let mut flow = greeting(&cb);
    assert_eq!(
        cb.handle(&mut flow, FlowEvent::Outbound(Err("reset".to_string()))),
        FlowAction::Drop(DropCause::Outbound("reset".to_string()))
    );
    assert!(flow.is_closed());
}

#[test]
fn failed_splice_ends_the_flow() {
    let cb = callback(None, None);
    let mut flow = greeting(&cb);
    cb.handle(&mut flow, FlowEvent::Outbound(Ok(())));
    assert_eq!(
        cb.handle(&mut flow, FlowEvent::Spliced(Err("timedout".to_string()))),
        FlowAction::Drop(DropCause::Transport("timedout".to_string()))
    );
    assert!(flow.is_closed());
}

#[test]
fn out_of_order_event_ends_the_flow() {
    let cb = callback(Some("stub"), None);

    let mut flow = cb.accept();
    assert_eq!(
        cb.handle(&mut flow, FlowEvent::Connected(Ok(true))),
        FlowAction::Drop(DropCause::Unexpected)
    );
    assert!(flow.is_closed());

    let mut flow = cb.accept();
    cb.handle(&mut flow, FlowEvent::Inbound(Ok(to_domain("localhost", 1))));
    assert_eq!(
        cb.handle(&mut flow, FlowEvent::Connected(Ok(true))),
        FlowAction::Drop(DropCause::Unexpected)
    );
    assert!(flow.is_closed());
}

#[test]
fn closed_flow_takes_no_event() {
    let cb = callback(None, None);
    let mut flow = greeting(&cb);
    cb.handle(&mut flow, FlowEvent::Outbound(Ok(())));
    cb.handle(&mut flow, FlowEvent::Spliced(Ok((1, 2))));
    assert!(flow.is_closed());
    assert_eq!(
        cb.handle(&mut flow, FlowEvent::Spliced(Ok((1, 2)))),
        FlowAction::Drop(DropCause::Unexpected)
    );
    assert_eq!(
        cb.handle(&mut flow, FlowEvent::Inbound(Ok(to_socket(LOCALHOST, 80, PacketType::Tcp)))),
        FlowAction::Drop(DropCause::Unexpected)
    );
    assert!(flow.is_closed());
}

#[test]
fn causes_have_their_level() {
    assert_eq!(DropCause::Inbound("x".to_string()).level(), LogLevel::Error);
    assert_eq!(DropCause::Resolve("x".to_string()).level(), LogLevel::Error);
    assert_eq!(DropCause::EmptyResolve.level(), LogLevel::Error);
    assert_eq!(DropCause::Client("x".to_string()).level(), LogLevel::Debug);
    assert_eq!(DropCause::Outbound("x".to_string()).level(), LogLevel::Debug);
    assert_eq!(DropCause::Transport("x".to_string()).level(), LogLevel::Debug);
    assert_eq!(DropCause::Unexpected.level(), LogLevel::Error);
}

#[test]
fn causes_have_their_line() {
    assert_eq!(DropCause::Inbound("bad version".to_string()).message(), "[inbound] bad version");
    assert_eq!(DropCause::Resolve("timeout".to_string()).message(), "[dns] <resolve> timeout");
    assert_eq!(DropCause::EmptyResolve.message(), "[dns] <resolve> empty resolved");
    assert_eq!(DropCause::Client("refused".to_string()).message(), "[outbound] <client> refused");
    assert_eq!(DropCause::Outbound("reset".to_string()).message(), "[outbound] reset");
    assert_eq!(DropCause::Transport("timedout".to_string()).message(), "[transport] timedout");
    assert_eq!(DropCause::Unexpected.message(), "[dispatch] unexpected event");
}

#[test]
fn dispatch_line_has_the_fixed_format() {
    let cb = callback(None, None);
    assert_eq!(
        cb.dispatch_line("socks", "direct", "anon", "127.0.0.1:50000", "tcp", "example.com:80"),
        "[dispatch] [socks(in-tcp) -> direct(out-direct)] (<anon>127.0.0.1:50000) tcp://example.com:80"
    );
    assert_eq!(
        cb.dispatch_line("vless", "vless", "", "", "udp", "[::1]:53"),
        "[dispatch] [vless(in-tcp) -> vless(out-direct)] (<>) udp://[::1]:53"
    );
}
