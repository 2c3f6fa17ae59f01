use stun_proto::{
    server_status, socket_test_result, summarize, ServerStatus, SocketAddr, Span, StunServer,
    StunServerTestResult, StunSocketResponse, StunSocketTestResult, TIMEOUT_MESSAGE,
};

const SERVER: SocketAddr = SocketAddr::V4 { addr: 0x01020304, port: 3478 };
const LOCAL: SocketAddr = SocketAddr::V4 { addr: 0, port: 40000 };
const RTT: Span = Span { secs: 0, nanos: 5_000_000 };
const DEADLINE: Span = Span { secs: 1, nanos: 0 };

fn probe(reply: Result<SocketAddr, String>) -> StunSocketTestResult {
    socket_test_result(SERVER, reply, LOCAL, RTT, DEADLINE)
}

fn healthy() -> StunSocketTestResult {
    probe(Ok(SocketAddr::V4 { addr: 0x05060708, port: 40000 }))
}

fn timed_out() -> StunSocketTestResult {
    probe(Err(TIMEOUT_MESSAGE.to_string()))
}

fn broken() -> StunSocketTestResult {
    probe(Err("UDP socket error".to_string()))
}

fn server(tests: Vec<StunSocketTestResult>) -> StunServerTestResult {
    StunServerTestResult { server: StunServer { hostname: "stun.example.org".to_string(), port: 3478 }, socket_tests: tests }
}

#[test]
fn matching_port_is_healthy() {
    let r = healthy();
    assert_eq!(SERVER, r.socket);
    assert!(r.is_ok());
    assert!(matches!(r.result, StunSocketResponse::HealthyResponse { rtt } if rtt == RTT));
}

#[test]
fn other_port_is_invalid_mapping() {
    let actual = SocketAddr::V4 { addr: 0x05060708, port: 40001 };
    let r = probe(Ok(actual));
    assert!(!r.is_ok());
    match r.result {
        StunSocketResponse::InvalidMappingResponse { expected, actual: a, rtt } => {
            assert_eq!(LOCAL, expected);
            assert_eq!(actual, a);
            assert_eq!(RTT, rtt);
        }
        _ => panic!("expected an invalid mapping"),
    }
}

#[test]
fn timeout_text_is_timeout() {
    match timed_out().result {
        StunSocketResponse::Timeout { deadline } => assert_eq!(DEADLINE, deadline),
        _ => panic!("expected a timeout"),
    }
}

#[test]
fn other_error_is_unexpected() {
    match broken().result {
        StunSocketResponse::UnexpectedError { err } => assert_eq!("UDP socket error", err),
        _ => panic!("expected an unexpected error"),
    }
}

#[test]
fn server_predicates() {
    let none = server(vec![]);
    assert!(!none.is_resolvable());
    assert!(!none.is_healthy());
    assert!(!none.is_partial_timeout());
    assert!(!none.is_timeout());

    let all_good = server(vec![healthy(), healthy()]);
    assert!(all_good.is_resolvable());
    assert!(all_good.is_healthy());
    assert!(all_good.is_partial_timeout());
    assert!(!all_good.is_timeout());

    let some_timeouts = server(vec![healthy(), timed_out()]);
    assert!(!some_timeouts.is_healthy());
    assert!(some_timeouts.is_partial_timeout());
    assert!(!some_timeouts.is_timeout());

    let all_timeouts = server(vec![timed_out(), timed_out()]);
    assert!(all_timeouts.is_partial_timeout());
    assert!(all_timeouts.is_timeout());

    let odd = server(vec![healthy(), broken()]);
    assert!(!odd.is_partial_timeout());
    assert!(!odd.is_timeout());
}

#[test]
fn verdicts_in_order() {
    assert_eq!(ServerStatus::Healthy, server_status(&server(vec![healthy()])));
    assert_eq!(ServerStatus::NotResolvable, server_status(&server(vec![])));
    assert_eq!(ServerStatus::PartialTimeout, server_status(&server(vec![healthy(), timed_out()])));
    // all sockets timing out is also a partial timeout, which is checked first
    assert_eq!(ServerStatus::PartialTimeout, server_status(&server(vec![timed_out()])));
    assert_eq!(ServerStatus::Unexpected, server_status(&server(vec![broken()])));
    assert_eq!(ServerStatus::Unexpected, server_status(&server(vec![timed_out(), broken()])));
}

#[test]
fn summary_tallies_each_server_once() {
    let results = vec![
        server(vec![healthy()]),
        server(vec![healthy(), healthy()]),
        server(vec![]),
        server(vec![timed_out(), healthy()]),
        server(vec![broken()]),
    ];
    let s = summarize(7, &results);
    assert_eq!(7, s.tested);
    assert_eq!(2, s.healthy);
    assert_eq!(1, s.dns_unresolved);
    assert_eq!(1, s.partial_timeout);
    assert_eq!(0, s.timeout);
    assert_eq!(1, s.unexpected_err);
    assert_eq!(results.len(), s.healthy + s.dns_unresolved + s.partial_timeout + s.timeout + s.unexpected_err);
}

#[test]
fn empty_run_has_no_healthy_hosts() {
    let s = summarize(0, &vec![]);
    assert_eq!(0, s.healthy);
    assert_eq!(0, s.dns_unresolved + s.partial_timeout + s.timeout + s.unexpected_err);
}
