use anubis_solver::{keep_response_header, parse_proxy_path, ProxyRoute};

#[test]
fn health_probe() {
    assert!(matches!(parse_proxy_path("/health", None), ProxyRoute::Health));
}

#[test]
fn paths_outside_the_proxy_prefix_get_the_usage_answer() {
    assert!(matches!(parse_proxy_path("/", None), ProxyRoute::Usage));
    assert!(matches!(parse_proxy_path("/other/x", None), ProxyRoute::Usage));
    assert!(matches!(parse_proxy_path("/proxy", None), ProxyRoute::Usage));
}

#[test]
fn an_empty_host_is_refused() {
    assert!(matches!(parse_proxy_path("/proxy/", None), ProxyRoute::MissingHost));
}

#[test]
fn host_without_a_path_proxies_to_the_root() {
    match parse_proxy_path("/proxy/example.com", None) {
        ProxyRoute::Target { host, url } => {
            assert_eq!(host, "example.com");
            assert_eq!(url, "https://example.com/");
        },
        other => panic!("expected a target, got {:?}", other),
    }
}

#[test]
fn host_path_and_query_are_assembled() {
    match parse_proxy_path("/proxy/clew.se/search", Some("q=test")) {
        ProxyRoute::Target { host, url } => {
            assert_eq!(host, "clew.se");
            assert_eq!(url, "https://clew.se/search?q=test");
        },
        other => panic!("expected a target, got {:?}", other),
    }
}

#[test]
fn nested_paths_are_kept_whole() {
    match parse_proxy_path("/proxy/h.example/a/b/c", None) {
        ProxyRoute::Target { host, url } => {
            assert_eq!(host, "h.example");
            assert_eq!(url, "https://h.example/a/b/c");
        },
        other => panic!("expected a target, got {:?}", other),
    }
}

#[test]
fn hop_by_hop_headers_are_dropped_and_the_rest_kept() {
    assert!(!keep_response_header("transfer-encoding"));
    assert!(!keep_response_header("connection"));
    assert!(keep_response_header("content-type"));
    assert!(keep_response_header("set-cookie"));
}
