use slayerfs::rpc::endpoint::{
    parse_host_port, resolve_endpoint, resolve_endpoint_with_fallback, strip_scheme, DnsFallback,
    EndpointError, Resolution, SocketTarget,
};
use slayerfs::rpc::ip::is_ip_address;

#[test]
fn test_strip_scheme() {
    assert_eq!(strip_scheme("http://server0:2379"), "server0:2379");
    assert_eq!(strip_scheme("https://server0:2379"), "server0:2379");
    assert_eq!(strip_scheme("quic://server0:2379"), "server0:2379");
    assert_eq!(strip_scheme("server0:2379"), "server0:2379");
    assert_eq!(strip_scheme("127.0.0.1:2379"), "127.0.0.1:2379");
}

#[test]
fn test_parse_host_port_ipv4() {
    let (host, port) = parse_host_port("127.0.0.1:2379").unwrap();
    assert_eq!(host, "127.0.0.1");
    assert_eq!(port, 2379);
}

#[test]
fn test_parse_host_port_ipv6() {
    let (host, port) = parse_host_port("[::1]:2379").unwrap();
    assert_eq!(host, "::1");
    assert_eq!(port, 2379);
}

#[test]
fn test_parse_host_port_dns() {
    let (host, port) = parse_host_port("http://server0:2379").unwrap();
    assert_eq!(host, "server0");
    assert_eq!(port, 2379);
}

#[test]
fn test_parse_host_port_no_port() {
    assert!(parse_host_port("server0").is_err());
}

fn reason_of(endpoint: &str) -> String {
    match parse_host_port(endpoint) {
        Err(EndpointError::ParseError { endpoint: e, reason }) => {
            assert_eq!(e, endpoint);
            reason
        }
        _ => panic!("no parse error"),
    }
}

#[test]
fn parse_errors_name_their_reason() {
    assert_eq!(reason_of("[::1:2379"), "missing ']' in IPv6 endpoint");
    assert_eq!(reason_of("[::1]2379"), "missing port after ']'");
    assert_eq!(reason_of("[::1]"), "missing port after ']'");
    assert_eq!(reason_of("server0"), "missing ':' separator and port");
    assert_eq!(reason_of("server0:"), "invalid port: cannot parse integer from empty string");
    assert_eq!(reason_of("server0:12a"), "invalid port: invalid digit found in string");
    assert_eq!(reason_of("server0:65536"), "invalid port: number too large to fit in target type");
    assert_eq!(reason_of("server0:-1"), "invalid port: invalid digit found in string");
}

#[test]
fn ports_are_read_as_numbers() {
    assert_eq!(parse_host_port("a:+80").unwrap(), ("a".to_string(), 80));
    assert_eq!(parse_host_port("a:65535").unwrap(), ("a".to_string(), 65535));
    assert_eq!(parse_host_port("a:b:7").unwrap(), ("a:b".to_string(), 7));
    assert_eq!(parse_host_port("quic://[fe80::1]:9").unwrap(), ("fe80::1".to_string(), 9));
}

#[test]
fn addresses_are_recognised() {
    for s in [
        "127.0.0.1", "0.0.0.0", "255.255.255.255", "::", "::1", "1::", "fe80::1",
        "1:2:3:4:5:6:7:8", "1:2:3:4:5:6:7::", "::1:2:3:4:5:6:7", "::ffff:1.2.3.4",
        "1:2:3:4:5:6:1.2.3.4", "ABCD:ef01::",
    ] {
        assert!(is_ip_address(s), "{}", s);
    }
    for s in [
        "", "localhost", "server0", "256.0.0.1", "01.2.3.4", "1.2.3", "1.2.3.4.5", "1.2.3.+4",
        ":::", "1:2:3:4:5:6:7", "1:2:3:4:5:6:7:8:9", "1:2:3:4:5:6:7:8::", "12345::", "g::",
        "1.2.3.4::", "1::2::3", "1:2:3:4:5:6:7:1.2.3.4", ":1", "1:",
    ] {
        assert!(!is_ip_address(s), "{}", s);
    }
}

#[test]
fn test_resolve_ip_endpoint() {
    match resolve_endpoint::<u8>("127.0.0.1:2379") {
        Ok(Resolution::Ready(found)) => {
            assert_eq!(found.server_name, "127.0.0.1");
            assert_eq!(found.port, 2379);
            assert_eq!(found.target, SocketTarget::Literal);
        }
        _ => panic!("not resolved"),
    }
}

#[test]
fn test_resolve_localhost() {
    let wait = match resolve_endpoint::<&str>("localhost:2379") {
        Ok(Resolution::Lookup(wait)) => wait,
        _ => panic!("no look-up"),
    };
    assert_eq!(wait.host, "localhost");
    let found = wait.finish(Ok(Some("127.0.0.1"))).unwrap();
    assert_eq!(found.server_name, "localhost");
    assert_eq!(found.port, 2379);
    assert_eq!(found.target, SocketTarget::Resolved("127.0.0.1"));
}

#[test]
fn failed_look_ups_follow_the_fallback() {
    let begin = |fallback| match resolve_endpoint_with_fallback::<u8>("http://s0:1", fallback) {
        Ok(Resolution::Lookup(wait)) => wait,
        _ => panic!("no look-up"),
    };
    let err = begin(DnsFallback::Disabled).finish::<u8>(Err("no such host".into())).unwrap_err();
    assert_eq!(
        err.message(),
        "DNS lookup failed for 's0:1' (endpoint='http://s0:1', fallback=Disabled): no such host"
    );
    let err = begin(DnsFallback::Disabled).finish::<u8>(Ok(None)).unwrap_err();
    assert_eq!(
        err.message(),
        "DNS lookup returned no addresses for 's0:1' (endpoint='http://s0:1')"
    );
    let found = begin(DnsFallback::LocalhostForTest).finish::<u8>(Err("x".into())).unwrap();
    assert_eq!(found.target, SocketTarget::Localhost);
    assert_eq!(found.server_name, "s0");
    let err = parse_host_port("x").unwrap_err();
    assert_eq!(err.message(), "invalid endpoint 'x': missing ':' separator and port");
}
