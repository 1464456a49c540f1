use peer_echo::dispatch::{Route, Service};
use peer_echo::endpoint::{Arrival, Decision, Endpoint};
use peer_echo::error::Failure;
use peer_echo::identity::PeerIdentity;
use peer_echo::tag::ProtocolTag;
use peer_echo::transport::{Event, Request, Step};

fn incoming(tag: &[u8]) -> Arrival {
    Arrival::Incoming { tag: tag.to_vec() }
}

fn peer() -> PeerIdentity {
    PeerIdentity::from_bytes([3u8; 32])
}

#[test]
fn standard_endpoint_is_open_and_announces_its_tags() {
    let endpoint = Endpoint::standard();
    assert!(endpoint.is_open());
    assert_eq!(
        endpoint.accepted_tags(),
        vec![b"iroh-example/echo/0".to_vec(), b"test/ping/0".to_vec()]
    );
}

#[test]
fn registered_tags_are_served_by_their_handler() {
    let mut endpoint = Endpoint::standard();
    assert_eq!(
        endpoint.accept(incoming(b"iroh-example/echo/0")),
        Decision::Serve { service: Service::Echo }
    );
    assert_eq!(
        endpoint.accept(incoming(b"test/ping/0")),
        Decision::Serve { service: Service::Ping }
    );
    assert!(endpoint.is_open());
}

#[test]
fn an_unregistered_tag_is_rejected_and_accepting_goes_on() {
    let mut endpoint = Endpoint::standard();
    assert_eq!(
        endpoint.accept(incoming(b"test/pong/0")),
        Decision::Reject { failure: Failure::ProtocolMismatch }
    );
    assert_eq!(
        endpoint.accept(incoming(b"")),
        Decision::Reject { failure: Failure::ProtocolMismatch }
    );
    assert!(endpoint.is_open());
    assert_eq!(
        endpoint.accept(incoming(b"test/ping/0")),
        Decision::Serve { service: Service::Ping }
    );
}

#[test]
fn a_failed_handshake_is_passed_over() {
    let mut endpoint = Endpoint::standard();
    assert_eq!(endpoint.accept(Arrival::HandshakeFailed), Decision::Skip);
    assert!(endpoint.is_open());
    assert_eq!(
        endpoint.accept(incoming(b"test/ping/0")),
        Decision::Serve { service: Service::Ping }
    );
}

#[test]
fn a_shutdown_closes_the_endpoint() {
    let mut endpoint = Endpoint::standard();
    assert_eq!(endpoint.accept(Arrival::Shutdown), Decision::Stop);
    assert!(!endpoint.is_open());
}

#[test]
fn a_closed_endpoint_accepts_nothing() {
    let mut endpoint = Endpoint::standard();
    endpoint.close();
    assert!(!endpoint.is_open());
    let later = [
        incoming(b"test/ping/0"),
        incoming(b"iroh-example/echo/0"),
        incoming(b"unknown"),
        Arrival::HandshakeFailed,
        Arrival::Shutdown,
    ];
    for arrival in later {
        assert_eq!(endpoint.accept(arrival), Decision::Stop);
        assert!(!endpoint.is_open());
    }
}

#[test]
fn closing_twice_is_closing_once() {
    let mut endpoint = Endpoint::standard();
    endpoint.close();
    endpoint.close();
    assert!(!endpoint.is_open());
    assert_eq!(endpoint.accepted_tags().len(), 2);
}

#[test]
fn endpoint_bind_refuses_a_tag_named_twice() {
    let routes = vec![
        Route { tag: ProtocolTag::ping(), service: Service::Ping },
        Route { tag: ProtocolTag::ping(), service: Service::Echo },
    ];
    assert_eq!(Endpoint::bind(routes).unwrap_err(), Failure::BindError);
}

#[test]
fn bind_accepts_distinct_tags() {
    let routes = vec![Route { tag: ProtocolTag::from_text("only"), service: Service::Echo }];
    let mut endpoint = Endpoint::bind(routes).unwrap();
    assert!(endpoint.is_open());
    assert_eq!(endpoint.accepted_tags(), vec![b"only".to_vec()]);
    assert_eq!(endpoint.accept(incoming(b"only")), Decision::Serve { service: Service::Echo });
    assert_eq!(
        endpoint.accept(incoming(b"test/ping/0")),
        Decision::Reject { failure: Failure::ProtocolMismatch }
    );
}

#[test]
fn an_endpoint_without_routes_rejects_everything() {
    let mut endpoint = Endpoint::bind(Vec::new()).unwrap();
    assert_eq!(
        endpoint.accept(incoming(b"test/ping/0")),
        Decision::Reject { failure: Failure::ProtocolMismatch }
    );
}

#[test]
fn an_open_endpoint_prepares_a_ping() {
    let endpoint = Endpoint::standard();
    let mut probe = endpoint.ping(peer(), [1, 2, 3, 4, 5, 6, 7, 8]).unwrap();
    assert_eq!(
        probe.step(Event::Start),
        Step::Ask { request: Request::Connect { peer: peer(), tag: ProtocolTag::ping() } }
    );
    probe.step(Event::Ready);
    assert_eq!(
        probe.step(Event::Ready),
        Step::Ask { request: Request::Write { bytes: vec![1, 2, 3, 4, 5, 6, 7, 8] } }
    );
}

#[test]
fn an_open_endpoint_prepares_a_dial() {
    let endpoint = Endpoint::standard();
    let mut probe =
        endpoint.connect(peer(), ProtocolTag::echo(), b"Hello, world!".to_vec(), 1000).unwrap();
    assert_eq!(
        probe.step(Event::Start),
        Step::Ask { request: Request::Connect { peer: peer(), tag: ProtocolTag::echo() } }
    );
}

#[test]
fn a_closed_endpoint_dials_nothing() {
    let mut endpoint = Endpoint::standard();
    endpoint.close();
    assert_eq!(endpoint.ping(peer(), [0; 8]).unwrap_err(), Failure::Closed);
    assert_eq!(
        endpoint.connect(peer(), ProtocolTag::echo(), Vec::new(), 10).unwrap_err(),
        Failure::Closed
    );
}
