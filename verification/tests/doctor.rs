use slayerfs::ctl::doctor::{
    cache_source_label, check_ca_path_status, curp_cache_enabled_from_env_value,
    endpoints_have_ip_or_localhost, is_ip_or_localhost, parse_endpoint_parts,
    rust_log_enabled_from_env_value, CaStatus, EndpointCheck,
};

#[test]
fn endpoint_missing_scheme_is_critical() {
    assert_eq!(parse_endpoint_parts("server0:2379"), EndpointCheck::MissingScheme);
}

#[test]
fn endpoint_missing_port_is_critical() {
    assert_eq!(parse_endpoint_parts("https://server0"), EndpointCheck::MissingPort);
}

#[test]
fn endpoint_unknown_scheme_is_critical() {
    assert_eq!(
        parse_endpoint_parts("ftp://server0:2379"),
        EndpointCheck::UnknownScheme("ftp".to_string())
    );
}

#[test]
fn endpoint_https_dns_is_ok() {
    assert_eq!(
        parse_endpoint_parts("https://server0:2379"),
        EndpointCheck::Valid {
            scheme: "https".to_string(),
            host: "server0".to_string(),
            port: 2379
        }
    );
}

#[test]
fn endpoint_ipv4_is_critical() {
    assert_eq!(parse_endpoint_parts("https://127.0.0.1:2379"), EndpointCheck::IpEndpoint);
}

#[test]
fn endpoint_ipv6_is_critical() {
    assert_eq!(parse_endpoint_parts("https://[::1]:2379"), EndpointCheck::IpEndpoint);
}

#[test]
fn endpoint_localhost_is_critical() {
    assert_eq!(
        parse_endpoint_parts("https://localhost:2379"),
        EndpointCheck::LocalhostEndpoint
    );
}

#[test]
fn endpoint_invalid_port_is_critical() {
    assert_eq!(parse_endpoint_parts("https://server0:99999"), EndpointCheck::InvalidPort);
}

#[test]
fn endpoint_http_is_ok_with_scheme_field() {
    assert_eq!(
        parse_endpoint_parts("http://server0:2379"),
        EndpointCheck::Valid {
            scheme: "http".to_string(),
            host: "server0".to_string(),
            port: 2379
        }
    );
}

#[test]
fn classify_host_ip() {
    assert!(is_ip_or_localhost("127.0.0.1"));
    assert!(is_ip_or_localhost("::1"));
    assert!(is_ip_or_localhost("10.0.0.1"));
}

#[test]
fn classify_host_localhost() {
    assert!(is_ip_or_localhost("localhost"));
}

#[test]
fn classify_host_dns_name() {
    assert!(!is_ip_or_localhost("server0"));
    assert!(!is_ip_or_localhost("example.com"));
}

#[test]
fn ca_missing_file_is_not_found() {
    assert_eq!(
        check_ca_path_status(false, Err("No such file or directory".to_string())),
        CaStatus::NotFound
    );
}

#[test]
fn ca_empty_file_is_empty() {
    assert_eq!(check_ca_path_status(true, Ok(0)), CaStatus::Empty);
}

#[test]
fn ca_nonempty_file_is_found() {
    assert_eq!(check_ca_path_status(true, Ok(14)), CaStatus::Found(14));
}

#[test]
fn ca_unreadable_file_is_an_error() {
    assert_eq!(
        check_ca_path_status(true, Err("denied".to_string())),
        CaStatus::MetadataError("denied".to_string())
    );
}

#[test]
fn sni_routing_detects_ip_endpoint() {
    let eps = vec!["https://127.0.0.1:2379".to_string()];
    assert!(endpoints_have_ip_or_localhost(&eps));
}

#[test]
fn sni_routing_detects_localhost_endpoint() {
    let eps = vec!["https://localhost:2379".to_string()];
    assert!(endpoints_have_ip_or_localhost(&eps));
}

#[test]
fn sni_routing_ok_with_dns_names() {
    let eps = vec![
        "https://server0:2379".to_string(),
        "https://server1:2379".to_string(),
    ];
    assert!(!endpoints_have_ip_or_localhost(&eps));
}

#[test]
fn experimental_cache_enabled() {
    assert!(curp_cache_enabled_from_env_value(Some("1")));
    assert!(curp_cache_enabled_from_env_value(Some("true")));
}

#[test]
fn experimental_cache_disabled() {
    assert!(!curp_cache_enabled_from_env_value(None));
    assert!(!curp_cache_enabled_from_env_value(Some("0")));
    assert!(!curp_cache_enabled_from_env_value(Some("false")));
}

#[test]
fn cache_source_label_disabled() {
    assert_eq!(cache_source_label(false, false), None);
}

#[test]
fn cache_source_label_env_only() {
    assert_eq!(cache_source_label(true, false), Some("env var"));
}

#[test]
fn cache_source_label_cli_only() {
    assert_eq!(cache_source_label(false, true), Some("CLI flag"));
}

#[test]
fn cache_source_label_both() {
    assert_eq!(cache_source_label(true, true), Some("env + CLI flag"));
}

#[test]
fn experimental_rust_log_enabled() {
    assert!(rust_log_enabled_from_env_value(Some("debug")));
    assert!(rust_log_enabled_from_env_value(Some("xlinerpc=info")));
}

#[test]
fn experimental_rust_log_disabled() {
    assert!(!rust_log_enabled_from_env_value(None));
}

#[test]
fn brackets_keep_their_colons() {
    assert_eq!(parse_endpoint_parts("https://[::1]"), EndpointCheck::MissingPort);
    assert_eq!(parse_endpoint_parts("https://[::1]:2379"), EndpointCheck::IpEndpoint);
    assert_eq!(parse_endpoint_parts("https://[::1]:"), EndpointCheck::InvalidPort);
    assert!(endpoints_have_ip_or_localhost(&["https://[::1]".to_string()]));
    assert!(!endpoints_have_ip_or_localhost(&["https://server0".to_string()]));
}
