use peer_echo::dispatch::{Dispatcher, Route, Service};
use peer_echo::error::Failure;
use peer_echo::tag::ProtocolTag;

fn route(tag: &str, service: Service) -> Route {
    Route { tag: ProtocolTag::from_text(tag), service }
}

#[test]
fn standard_table_routes_echo_and_ping() {
    let table = Dispatcher::standard();
    assert_eq!(table.len(), 2);
    assert_eq!(table.route(b"iroh-example/echo/0"), Some(Service::Echo));
    assert_eq!(table.route(b"test/ping/0"), Some(Service::Ping));
}

#[test]
fn unregistered_tag_has_no_handler() {
    let table = Dispatcher::standard();
    assert_eq!(table.route(b"test/ping/1"), None);
    assert_eq!(table.route(b"test/ping"), None);
    assert_eq!(table.route(b""), None);
    assert_eq!(table.route(b"iroh-example/echo/0 "), None);
}

#[test]
fn empty_table_routes_nothing() {
    let table = Dispatcher::bind(Vec::new()).unwrap();
    assert_eq!(table.len(), 0);
    assert_eq!(table.route(b"test/ping/0"), None);
    assert_eq!(table.accepted_tags(), Vec::<Vec<u8>>::new());
}

#[test]
fn bind_keeps_the_routes_in_order() {
    let table = Dispatcher::bind(vec![
        route("b", Service::Ping),
        route("a", Service::Echo),
        route("c", Service::Echo),
    ])
    .unwrap();
    assert_eq!(table.len(), 3);
    assert_eq!(table.accepted_tags(), vec![b"b".to_vec(), b"a".to_vec(), b"c".to_vec()]);
    assert_eq!(table.route(b"a"), Some(Service::Echo));
    assert_eq!(table.route(b"b"), Some(Service::Ping));
    assert_eq!(table.route(b"c"), Some(Service::Echo));
    assert_eq!(table.route(b"d"), None);
}

#[test]
fn bind_refuses_a_tag_named_twice() {
    let bound = Dispatcher::bind(vec![route("a", Service::Echo), route("a", Service::Ping)]);
    assert_eq!(bound.unwrap_err(), Failure::BindError);
}

#[test]
fn bind_refuses_a_tag_named_twice_far_apart() {
    let bound = Dispatcher::bind(vec![
        route("a", Service::Echo),
        route("b", Service::Echo),
        route("c", Service::Ping),
        route("a", Service::Echo),
    ]);
    assert_eq!(bound.unwrap_err(), Failure::BindError);
}

#[test]
fn one_service_may_have_several_tags() {
    let table =
        Dispatcher::bind(vec![route("x/0", Service::Echo), route("x/1", Service::Echo)]).unwrap();
    assert_eq!(table.route(b"x/0"), Some(Service::Echo));
    assert_eq!(table.route(b"x/1"), Some(Service::Echo));
}

#[test]
fn standard_table_announces_its_tags() {
    let table = Dispatcher::standard();
    assert_eq!(
        table.accepted_tags(),
        vec![b"iroh-example/echo/0".to_vec(), b"test/ping/0".to_vec()]
    );
}

#[test]
fn every_registered_tag_reaches_exactly_its_own_route() {
    let names = ["p/0", "p/1", "p/2", "p/3"];
    let services = [Service::Echo, Service::Ping, Service::Ping, Service::Echo];
    let mut routes = Vec::new();
    for i in 0..names.len() {
        routes.push(route(names[i], services[i]));
    }
    let table = Dispatcher::bind(routes).unwrap();
    let tags = table.accepted_tags();
    for i in 0..names.len() {
        let hits = tags.iter().filter(|tag| tag.as_slice() == names[i].as_bytes()).count();
        assert_eq!(hits, 1);
        assert_eq!(table.route(names[i].as_bytes()), Some(services[i]));
    }
}
