use std::cell::RefCell;
use std::sync::Arc;
use std::time::Duration;

use kapibara::{
    AcceptLoop, Dispatch, DispatchCallback, DispatchError, DispatchOption, DnsOption,
    InboundError, InboundOption, OptionError, OutboundError, OutboundOption, Parts, Retry,
    RouteError, RouteOption, RouteRuleOption, SERVER_RETRY,
};

struct Names;

impl Parts for Names {
    type Resolver = &'static str;
    type InboundService = &'static str;
    type Server = &'static str;
    type OutboundService = &'static str;
    type Client = &'static str;
    type Task = usize;
}

fn rule(dns: bool, inbound: &[&str], outbound: &str) -> RouteRuleOption {
    RouteRuleOption {
        dns,
        inbound: inbound.iter().map(|t| t.to_string()).collect(),
        outbound: outbound.to_string(),
    }
}

fn inbound(tag: &str) -> InboundOption<Names> {
    InboundOption { tag: tag.to_string(), server: Ok("tcp"), service: Ok("socks") }
}

fn outbound(tag: &str) -> OutboundOption<Names> {
    OutboundOption {
        tag: tag.to_string(),
        client: Ok("empty"),
        service: Ok("direct"),
        timeout: Some(Duration::from_secs(5)),
    }
}

fn option(
    rules: Vec<RouteRuleOption>,
    inbound: Vec<InboundOption<Names>>,
    outbound: Vec<OutboundOption<Names>>,
) -> DispatchOption<Names> {
    DispatchOption {
        dns: DnsOption { resolve: "system" },
        route: RouteOption { rules },
        inbound,
        outbound,
    }
}

fn init_error(option: DispatchOption<Names>) -> DispatchError {
    match Dispatch::init(option) {
        Ok(_) => panic!("the configuration was accepted"),
        Err(e) => e,
    }
}

/// What one launch was handed.
#[derive(Debug, PartialEq)]
struct Launch {
    server: &'static str,
    in_tag: String,
    out_tag: String,
    resolver: Option<&'static str>,
    timeout: Option<Duration>,
}

fn record(
    log: &RefCell<Vec<Launch>>,
    server: Arc<&'static str>,
    cb: DispatchCallback<Names>,
) -> usize {
    let mut log = log.borrow_mut();
    log.push(Launch {
        server: *server,
        in_tag: cb.in_tag().to_string(),
        out_tag: cb.out_tag().to_string(),
        resolver: cb.resolver().map(|r| *r),
        timeout: cb.timeout(),
    });
    log.len() * 100
}

#[test]
fn init_accepts_sound_configuration() {
    let result = Dispatch::init(option(
        vec![rule(false, &["in-1"], "out-1")],
        vec![inbound("in-1"), inbound("in-2")],
        vec![outbound("out-1")],
    ));
    assert!(result.is_ok());
}

#[test]
fn init_accepts_empty_configuration() {
    let mut dispatch = Dispatch::init(option(vec![], vec![], vec![])).ok().unwrap();
    let log = RefCell::new(Vec::new());
    assert_eq!(dispatch.start(|s, c| record(&log, s, c)), Ok(()));
    assert!(log.borrow().is_empty());
    assert!(dispatch.close().is_empty());
}

#[test]
fn repeated_inbound_tag_is_rejected() {
    let e = init_error(option(
        vec![rule(false, &["in-1"], "out-1")],
        vec![inbound("in-1"), inbound("in-2"), inbound("in-1")],
        vec![outbound("out-1")],
    ));
    assert_eq!(e, DispatchError::Option(OptionError::DuplicateTag("in-1".to_string())));
}

#[test]
fn repeated_outbound_tag_is_rejected() {
    let e = init_error(option(
        vec![rule(false, &["in-1"], "out-1")],
        vec![inbound("in-1")],
        vec![outbound("out-1"), outbound("out-1")],
    ));
    assert_eq!(e, DispatchError::Option(OptionError::DuplicateTag("out-1".to_string())));
}

#[test]
fn same_tag_in_both_namespaces_is_fine() {
    let result = Dispatch::init(option(
        vec![rule(false, &["same"], "same")],
        vec![inbound("same")],
        vec![outbound("same")],
    ));
    assert!(result.is_ok());
}

#[test]
fn repeated_route_inbound_is_rejected_first() {
    let e = init_error(option(
        vec![rule(false, &["in-1"], "out-1"), rule(false, &["in-1"], "out-2")],
        vec![inbound("in-1"), inbound("in-1")],
        vec![outbound("out-1"), outbound("out-1")],
    ));
    assert_eq!(
        e,
        DispatchError::Route(RouteError::Option(OptionError::DuplicateTag("out-1".to_string())))
    );
}

#[test]
fn inbound_fault_comes_before_outbound_fault() {
    let e = init_error(option(
        vec![],
        vec![inbound("in-1"), inbound("in-1")],
        vec![OutboundOption {
            tag: "out".to_string(),
            client: Err("bad tls".to_string()),
            service: Ok("vless"),
            timeout: None,
        }],
    ));
    assert_eq!(e, DispatchError::Option(OptionError::DuplicateTag("in-1".to_string())));
}

#[test]
fn failed_inbound_build_is_reported() {
    let e = init_error(option(
        vec![],
        vec![
            inbound("in-1"),
            InboundOption {
                tag: "in-1".to_string(),
                server: Err("bad listen".to_string()),
                service: Ok("socks"),
            },
        ],
        vec![],
    ));
    assert_eq!(e, DispatchError::Inbound(InboundError::Server("bad listen".to_string())));
}

#[test]
fn first_inbound_fault_wins() {
    let e = init_error(option(
        vec![],
        vec![
            inbound("in-1"),
            inbound("in-1"),
            InboundOption {
                tag: "in-3".to_string(),
                server: Ok("tcp"),
                service: Err("no users".to_string()),
            },
        ],
        vec![],
    ));
    assert_eq!(e, DispatchError::Option(OptionError::DuplicateTag("in-1".to_string())));
}

#[test]
fn failed_outbound_build_is_reported() {
    let e = init_error(option(
        vec![],
        vec![inbound("in-1")],
        vec![
            outbound("out-1"),
            OutboundOption {
                tag: "out-2".to_string(),
                client: Ok("tcp"),
                service: Err("bad uuid".to_string()),
                timeout: None,
            },
        ],
    ));
    assert_eq!(e, DispatchError::Outbound(OutboundError::Service("bad uuid".to_string())));
}

#[test]
fn start_launches_one_loop_per_binding() {
    let mut dispatch = Dispatch::init(option(
        vec![rule(false, &["in-1", "in-2"], "out-1"), rule(true, &["in-3"], "out-2")],
        vec![
            InboundOption { tag: "in-3".to_string(), server: Ok("ws"), service: Ok("vless") },
            inbound("in-1"),
            inbound("in-2"),
        ],
        vec![
            outbound("out-1"),
            OutboundOption {
                tag: "out-2".to_string(),
                client: Ok("tcp"),
                service: Ok("vless"),
                timeout: None,
            },
        ],
    ))
    .ok()
    .unwrap();

    let log = RefCell::new(Vec::new());
    assert_eq!(dispatch.start(|s, c| record(&log, s, c)), Ok(()));

    assert_eq!(
        *log.borrow(),
        vec![
            Launch {
                server: "tcp",
                in_tag: "in-1".to_string(),
                out_tag: "out-1".to_string(),
                resolver: None,
                timeout: Some(Duration::from_secs(5)),
            },
            Launch {
                server: "tcp",
                in_tag: "in-2".to_string(),
                out_tag: "out-1".to_string(),
                resolver: None,
                timeout: Some(Duration::from_secs(5)),
            },
            Launch {
                server: "ws",
                in_tag: "in-3".to_string(),
                out_tag: "out-2".to_string(),
                resolver: Some("system"),
                timeout: None,
            },
        ]
    );
    assert_eq!(
        dispatch.close(),
        vec![("in-1".to_string(), 100), ("in-2".to_string(), 200), ("in-3".to_string(), 300)]
    );
}

#[test]
fn start_leaves_unbound_inbounds_alone() {
    let mut dispatch = Dispatch::init(option(
        vec![rule(false, &["in-2"], "out-1")],
        vec![inbound("in-1"), inbound("in-2")],
        vec![outbound("out-1"), outbound("out-2")],
    ))
    .ok()
    .unwrap();

    let log = RefCell::new(Vec::new());
    assert_eq!(dispatch.start(|s, c| record(&log, s, c)), Ok(()));
    assert_eq!(log.borrow().len(), 1);
    assert_eq!(log.borrow()[0].in_tag, "in-2");
}

#[test]
fn unknown_outbound_tag_stops_the_start() {
    let mut dispatch = Dispatch::init(option(
        vec![rule(false, &["in-tcp"], "out-missing")],
        vec![inbound("in-tcp")],
        vec![outbound("out-direct")],
    ))
    .ok()
    .unwrap();

    let log = RefCell::new(Vec::new());
    assert_eq!(
        dispatch.start(|s, c| record(&log, s, c)),
        Err(DispatchError::Option(OptionError::UnknownTag("out-missing".to_string())))
    );
    assert!(log.borrow().is_empty());
    assert!(dispatch.close().is_empty());
}

#[test]
fn unknown_inbound_tag_stops_the_start() {
    let mut dispatch = Dispatch::init(option(
        vec![rule(false, &["in-missing"], "out-missing")],
        vec![inbound("in-tcp")],
        vec![outbound("out-direct")],
    ))
    .ok()
    .unwrap();

    let log = RefCell::new(Vec::new());
    assert_eq!(
        dispatch.start(|s, c| record(&log, s, c)),
        Err(DispatchError::Option(OptionError::UnknownTag("in-missing".to_string())))
    );
    assert!(log.borrow().is_empty());
}

#[test]
fn bindings_before_an_unknown_tag_are_started() {
    let mut dispatch = Dispatch::init(option(
        vec![rule(false, &["in-1"], "out-1"), rule(false, &["in-2"], "out-9")],
        vec![inbound("in-1"), inbound("in-2")],
        vec![outbound("out-1")],
    ))
    .ok()
    .unwrap();

    let log = RefCell::new(Vec::new());
    assert_eq!(
        dispatch.start(|s, c| record(&log, s, c)),
        Err(DispatchError::Option(OptionError::UnknownTag("out-9".to_string())))
    );
    assert_eq!(log.borrow().len(), 1);
    assert_eq!(dispatch.close(), vec![("in-1".to_string(), 100)]);
}

#[test]
fn second_start_finds_the_tag_taken() {
    let mut dispatch = Dispatch::init(option(
        vec![rule(false, &["in-1", "in-2"], "out-1")],
        vec![inbound("in-1"), inbound("in-2")],
        vec![outbound("out-1")],
    ))
    .ok()
    .unwrap();

    let log = RefCell::new(Vec::new());
    assert_eq!(dispatch.start(|s, c| record(&log, s, c)), Ok(()));
    assert_eq!(
        dispatch.start(|s, c| record(&log, s, c)),
        Err(DispatchError::Option(OptionError::DuplicateTag("in-1".to_string())))
    );
    assert_eq!(log.borrow().len(), 3);
    assert_eq!(dispatch.close(), vec![("in-1".to_string(), 300), ("in-2".to_string(), 200)]);
}

#[test]
fn close_hands_back_every_task_once() {
    let mut dispatch = Dispatch::init(option(
        vec![rule(false, &["in-1"], "out-1"), rule(true, &["in-2"], "out-1")],
        vec![inbound("in-1"), inbound("in-2")],
        vec![outbound("out-1")],
    ))
    .ok()
    .unwrap();

    assert!(dispatch.close().is_empty());

    let log = RefCell::new(Vec::new());
    assert_eq!(dispatch.start(|s, c| record(&log, s, c)), Ok(()));
    assert_eq!(dispatch.close(), vec![("in-1".to_string(), 100), ("in-2".to_string(), 200)]);
    assert!(dispatch.close().is_empty());
    assert!(dispatch.close().is_empty());
}

#[test]
fn closed_tags_stay_taken() {
    let mut dispatch = Dispatch::init(option(
        vec![rule(false, &["in-1"], "out-1")],
        vec![inbound("in-1")],
        vec![outbound("out-1")],
    ))
    .ok()
    .unwrap();

    let log = RefCell::new(Vec::new());
    assert_eq!(dispatch.start(|s, c| record(&log, s, c)), Ok(()));
    assert_eq!(dispatch.close(), vec![("in-1".to_string(), 100)]);
    assert_eq!(
        dispatch.start(|s, c| record(&log, s, c)),
        Err(DispatchError::Option(OptionError::DuplicateTag("in-1".to_string())))
    );
    assert_eq!(dispatch.close(), vec![("in-1".to_string(), 200)]);
}

#[test]
fn server_is_run_thirty_times() {
    assert_eq!(SERVER_RETRY, 30);
    let mut accept = AcceptLoop::new();
    for _ in 0..29 {
        assert_eq!(accept.after_serve(false), Retry::Serve { log: false });
    }
    assert_eq!(accept.after_serve(false), Retry::Stop { log: false });
}

#[test]
fn always_failing_server_aborts_after_the_budget() {
    let mut accept = AcceptLoop::new();
    for _ in 0..29 {
        assert_eq!(accept.after_serve(true), Retry::Serve { log: true });
    }
    assert_eq!(accept.after_serve(true), Retry::Abort);
}

#[test]
fn failures_are_logged_and_retried() {
    let mut accept = AcceptLoop::new();
    assert_eq!(accept.after_serve(true), Retry::Serve { log: true });
    assert_eq!(accept.after_serve(false), Retry::Serve { log: false });
    assert_eq!(accept.after_serve(true), Retry::Serve { log: true });
}

#[test]
fn one_success_makes_the_last_failure_harmless() {
    let mut accept = AcceptLoop::new();
    assert_eq!(accept.after_serve(false), Retry::Serve { log: false });
    for _ in 0..28 {
        assert_eq!(accept.after_serve(true), Retry::Serve { log: true });
    }
    assert_eq!(accept.after_serve(true), Retry::Stop { log: true });

    let mut accept = AcceptLoop::new();
    for _ in 0..28 {
        assert_eq!(accept.after_serve(true), Retry::Serve { log: true });
    }
    assert_eq!(accept.after_serve(false), Retry::Serve { log: false });
    assert_eq!(accept.after_serve(true), Retry::Stop { log: true });
}

#[test]
fn used_up_loop_stays_over() {
    let mut accept = AcceptLoop::new();
    for _ in 0..30 {
        accept.after_serve(true);
    }
    assert_eq!(accept.after_serve(true), Retry::Abort);
    assert_eq!(accept.after_serve(false), Retry::Stop { log: false });
    assert_eq!(accept.after_serve(true), Retry::Stop { log: true });
}
