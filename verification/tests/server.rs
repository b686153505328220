use slayerfs::server::h3_server::{
    content_length, copy_response_body, length_of, unimplemented, BodyAction, BodyFrame,
    RouterBuilder, ServeAction, TlsConfig, XlineH3Server,
};
use slayerfs::server::port_router::{
    ConnectionTarget, Dispatch, PortRouter, ServerRoutingInfo,
};
use slayerfs::server::quic_runtime::SharedQuicRuntime;
use slayerfs::server::server_registry::{
    BindUrl, ListenerCall, ListenerReply, Registration, RegistrationStep, ServerUrl,
};

fn info(client: &[u16], peer: &[u16], n: u64) -> ServerRoutingInfo {
    ServerRoutingInfo {
        client_ports: client.to_vec(),
        peer_ports: peer.to_vec(),
        h3_router: n,
        grpc_server: n + 100,
    }
}

fn bind(host: Option<&str>, bind: u64) -> BindUrl {
    BindUrl { host: host.map(|h| h.to_string()), bind }
}

#[test]
fn connections_go_by_name_and_port() {
    let mut router = PortRouter::new();
    assert!(!router.insert("a", info(&[2379, 2380], &[2380], 1)));
    assert_eq!(router.route("a", 2379), ConnectionTarget::ClientH3);
    assert_eq!(router.route("a", 2380), ConnectionTarget::PeerCurp);
    assert_eq!(router.route("a", 1), ConnectionTarget::Unknown);
    assert_eq!(router.route("b", 2379), ConnectionTarget::Unknown);
    assert_eq!(router.dispatch("a", Some(2379)), Dispatch::Client(1));
    assert_eq!(router.dispatch("a", Some(2380)), Dispatch::Peer(101));
    assert_eq!(router.dispatch("a", None), Dispatch::Ignore);
    assert_eq!(router.dispatch("b", Some(2379)), Dispatch::Ignore);
    assert_eq!(router.get_h3_router("a"), Some(1));
    assert!(router.get_routing_info("b").is_none());
    assert_eq!(router.peer_of("b").unwrap_err(), "server b not found");
    assert_eq!(router.client_of("b").unwrap_err(), "server b not found for h3");
    assert!(router.insert("a", info(&[], &[2379], 5)));
    assert_eq!(router.route("a", 2379), ConnectionTarget::PeerCurp);
}

#[test]
fn a_server_is_known_under_its_hosts() {
    let mut router = PortRouter::new();
    router.insert("taken", info(&[1], &[], 9));
    let urls = vec![bind(Some("h1"), 1), bind(None, 2), bind(Some("s"), 3), bind(Some("taken"), 4)];
    assert!(!router.add_routing_entries("s", &info(&[10], &[20], 1), &urls));
    assert_eq!(router.route("s", 10), ConnectionTarget::ClientH3);
    assert_eq!(router.route("h1", 20), ConnectionTarget::PeerCurp);
    // A name that was known before stays as it was.
    assert_eq!(router.get_h3_router("taken"), Some(9));
    assert!(router.add_routing_entries("s", &info(&[11], &[20], 2), &urls));
    assert_eq!(router.route("s", 10), ConnectionTarget::Unknown);
    assert_eq!(router.get_h3_router("h1"), Some(1));
}

fn url(host: Option<&str>, bind: Result<u64, &str>) -> ServerUrl {
    ServerUrl { host: host.map(|h| h.to_string()), bind: bind.map_err(|e| e.to_string()) }
}

/// Runs a registration with the listeners that answer as the closure says, and notes the calls.
fn register(
    mut reg: Registration,
    mut answer: impl FnMut(&ListenerCall) -> ListenerReply,
) -> (Vec<String>, Result<(), String>) {
    let mut calls = vec![];
    loop {
        let call = reg.request();
        calls.push(match &call {
            ListenerCall::AddServer { name, binds } => format!("add {name} {binds:?}"),
            ListenerCall::GetServer { name } => format!("get {name}"),
            ListenerCall::BindInterfaces { name } => format!("bound {name}"),
        });
        let reply = answer(&call);
        match reg.resume(reply) {
            RegistrationStep::Next(next) => reg = next,
            RegistrationStep::Done(end) => return (calls, end),
        }
    }
}

fn started() -> Registration {
    let urls = vec![url(Some("h1"), Ok(1)), url(None, Ok(2)), url(Some("h3"), Ok(3))];
    Registration::new("s".to_string(), true, true, urls).unwrap()
}

#[test]
fn a_registration_adds_the_server_and_its_hosts() {
    let (calls, end) = register(started(), |call| match call {
        ListenerCall::AddServer { name, .. } if name == "h1" => {
            ListenerReply::Added(Err("taken".to_string()))
        }
        ListenerCall::AddServer { .. } => ListenerReply::Added(Ok(())),
        ListenerCall::GetServer { .. } => ListenerReply::Known(true),
        ListenerCall::BindInterfaces { .. } => ListenerReply::Bound(Some(1)),
    });
    assert_eq!(calls, vec!["add s [1, 2, 3]", "get s", "add h1 [1]", "add h3 [3]", "bound s"]);
    assert_eq!(end, Ok(()));
}

#[test]
fn a_server_that_is_not_there_is_added_again() {
    let (calls, end) = register(started(), |call| match call {
        ListenerCall::AddServer { .. } => ListenerReply::Added(Ok(())),
        ListenerCall::GetServer { .. } => ListenerReply::Known(false),
        ListenerCall::BindInterfaces { .. } => ListenerReply::Bound(None),
    });
    assert_eq!(
        calls,
        vec!["add s [1, 2, 3]", "get s", "add s [1]", "add h1 [1]", "add h3 [3]", "bound s"]
    );
    assert_eq!(end, Err("server s not found after registration".to_string()));
    let (_, end) = register(started(), |call| match call {
        ListenerCall::AddServer { .. } => ListenerReply::Added(Ok(())),
        ListenerCall::GetServer { .. } => ListenerReply::Known(true),
        ListenerCall::BindInterfaces { .. } => ListenerReply::Bound(Some(0)),
    });
    assert_eq!(end, Err("server s has no bound interfaces".to_string()));
    let (calls, end) =
        register(started(), |_| ListenerReply::Added(Err("port in use".to_string())));
    assert_eq!(calls.len(), 1);
    assert_eq!(end, Err("port in use".to_string()));
}

#[test]
fn a_registration_needs_a_certificate_a_key_and_addresses() {
    let new = |cert, key, urls| Registration::new("s".to_string(), cert, key, urls).unwrap_err();
    assert_eq!(new(false, true, vec![]), "server tls cert config is needed: s");
    assert_eq!(new(true, false, vec![]), "server tls key config is needed: s");
    let urls = vec![url(None, Ok(1)), url(None, Err("bad 1")), url(None, Err("bad 2"))];
    assert_eq!(new(true, true, urls), "bad 1");
}

#[test]
fn listeners_are_shared_until_the_shutdown() {
    let mut shared: SharedQuicRuntime<&str> = SharedQuicRuntime::new();
    assert!(!shared.is_initialized());
    assert_eq!(
        shared.get_or_init(Some(Err("no port".to_string()))),
        Err("QuicListeners::builder failed: no port".to_string())
    );
    assert_eq!(shared.get_or_init(Some(Ok("first"))), Ok(true));
    assert_eq!(shared.get_or_init(None), Ok(false));
    let mut servers = PortRouter::new();
    servers.insert("a", info(&[1], &[], 1));
    shared.set_servers(servers);
    assert!(shared.servers().unwrap().knows("a"));
    assert_eq!(shared.shutdown(), Some("first"));
    assert_eq!(shared.shutdown(), None);
    assert!(shared.servers().is_none());
    assert_eq!(shared.get_or_init(Some(Ok("second"))), Ok(true));
    assert!(!shared.servers().unwrap().knows("a"));
}

#[test]
fn serving_registers_all_servers_first() {
    let tls = TlsConfig {
        peer_cert_path: Some("c".to_string()),
        peer_key_path: Some("k".to_string()),
    };
    let router = RouterBuilder::new().add_subrouter("kv", 4).set_tls_config(tls);
    assert_eq!(router.routers, vec![("kv".to_string(), 4)]);
    let server = XlineH3Server::new()
        .with_client_ports(vec![1])
        .with_peer_ports(vec![2])
        .add_server("a", router, vec!["https://a:1".to_string()])
        .add_server("b", RouterBuilder::default(), vec![]);
    assert!(server.contains("a") && !server.contains("c"));
    assert_eq!(server.server(1).unwrap().name, "b");
    assert!(server.server(2).is_none());
    assert_eq!(server.routing_info(7, 8).peer_ports, vec![2]);
    assert!(matches!(server.serve(true, 0, Ok(())), ServeAction::Register(0)));
    assert!(matches!(server.serve(true, 1, Ok(())), ServeAction::Register(1)));
    assert!(matches!(server.serve(true, 2, Ok(())), ServeAction::Accept));
    assert!(matches!(server.serve(false, 2, Ok(())), ServeAction::Finish(Ok(()))));
    assert!(matches!(
        server.serve(true, 1, Err("no".to_string())),
        ServeAction::Finish(Err(e)) if e == "no"
    ));
}

#[test]
fn connections_and_requests_are_taken_in_turn() {
    let mut router = PortRouter::new();
    router.insert("a", info(&[1], &[2], 3));
    let accept = |r| XlineH3Server::accept_loop(&router, r);
    assert_eq!(accept(Ok(("a".to_string(), Some(1)))), Ok(Dispatch::Client(3)));
    assert_eq!(accept(Ok(("a".to_string(), None))), Ok(Dispatch::Ignore));
    assert_eq!(accept(Err("gone".to_string())), Err("quic listener accept failed: gone".to_string()));
    assert_eq!(XlineH3Server::handle_connection::<u8, ()>(Ok(Some(1))), Some(1));
    assert_eq!(XlineH3Server::handle_connection::<u8, ()>(Ok(None)), None);
    assert_eq!(XlineH3Server::handle_connection::<u8, ()>(Err(())), None);
}

#[test]
fn answers_and_bodies() {
    let (status, headers) = unimplemented();
    assert_eq!(status, 200);
    assert_eq!(headers, vec![("grpc-status", "12"), ("content-type", "application/grpc")]);
    let mut request = http::HeaderMap::new();
    assert_eq!(content_length(&request), None);
    request.insert("Content-Length", http::HeaderValue::from_static("42"));
    request.append("content-length", http::HeaderValue::from_static("43"));
    assert_eq!(content_length(&request), Some(42));
    assert_eq!(length_of(&b"+7".to_vec()), Some(7));
    assert_eq!(length_of(&b"4x".to_vec()), None);
    assert_eq!(length_of(&b" 4".to_vec()), None);
    assert_eq!(length_of(&vec![b'4', 200]), None);
    assert_eq!(length_of(&b"18446744073709551616".to_vec()), None);
    type F = BodyFrame<u8, u16>;
    assert!(matches!(copy_response_body(Some(Ok(F::Data(1)))), BodyAction::SendData(1)));
    assert!(matches!(copy_response_body(Some(Ok(F::Trailers(2)))), BodyAction::SendTrailers(2)));
    assert!(matches!(copy_response_body(Some(Ok(F::Other))), BodyAction::Skip));
    assert!(matches!(copy_response_body::<u8, u16>(None), BodyAction::Finish));
    assert!(matches!(
        copy_response_body::<u8, u16>(Some(Err("e".to_string()))),
        BodyAction::Fail(e) if e == "e"
    ));
}

#[test]
fn nested_routers_come_out_in_order() {
    let router = RouterBuilder::new().add_subrouter("kv", 4).add_subrouter("lease", 2);
    assert_eq!(router.into_inner(), vec![("kv".to_string(), 4), ("lease".to_string(), 2)]);
}
