use zero_trust_gateway::config::RouteConfig;
use zero_trust_gateway::net::{IpAddress, IpNet};
use zero_trust_gateway::request::HeaderField;
use zero_trust_gateway::routing::{find_route, get_client_ip, target_path_for, target_url_for};

fn route(path: &str, target: &str, strip: bool) -> RouteConfig {
    RouteConfig {
        path: path.to_string(),
        target: target.to_string(),
        strip_prefix: strip,
        auth_required: false,
        rate_limit: None,
        ai_caching: None,
    }
}

#[test]
fn first_matching_route_is_chosen() {
    let routes = vec![route("/api/v1/users", "http://a", true), route("/api", "http://b", false)];
    assert_eq!(find_route(&routes, "/api/v1/users/7"), Some(0));
    assert_eq!(find_route(&routes, "/api/v1/orders"), Some(1));
    assert_eq!(find_route(&routes, "/api/v1/users_backup"), Some(1));
    assert_eq!(find_route(&routes, "/api/v1/users"), Some(0));
    assert_eq!(find_route(&routes, "/health"), None);
}

#[test]
fn routes_match_at_segment_boundaries() {
    let routes = vec![route("/api/v1/orders", "http://127.0.0.1:8082", true)];
    assert_eq!(find_route(&routes, "/api/v1/orders_malicious"), None);
    assert_eq!(find_route(&routes, "/api/v1/orders"), Some(0));
    assert_eq!(find_route(&routes, "/api/v1/orders/"), Some(0));
    assert_eq!(find_route(&routes, "/api/v1/orders/7"), Some(0));
    assert_eq!(find_route(&routes, "/api/v1/order"), None);
    let slash = vec![route("/api/", "http://a", false)];
    assert_eq!(find_route(&slash, "/api/x"), Some(0));
    assert_eq!(find_route(&slash, "/api"), None);
    assert_eq!(find_route(&slash, "/apix"), None);
    let root = vec![route("/", "http://a", false)];
    assert_eq!(find_route(&root, "/anything/at/all"), Some(0));
    assert_eq!(find_route(&root, "/"), Some(0));
}

#[test]
fn prefix_is_stripped_when_asked() {
    assert_eq!(target_path_for(&route("/api/test", "t", true), "/api/test/target-path"), "/target-path");
    assert_eq!(target_path_for(&route("/api/test", "t", true), "/api/test"), "/");
    assert_eq!(target_path_for(&route("/api/v1/orders", "t", true), "/api/v1/orders_x"), "/_x");
    assert_eq!(target_path_for(&route("/api/test", "t", false), "/api/test/x"), "/api/test/x");
}

#[test]
fn upstream_url_joins_target_path_and_query() {
    assert_eq!(target_url_for("http://127.0.0.1:9000///", "/a", None), "http://127.0.0.1:9000/a");
    assert_eq!(target_url_for("http://h", "/s", Some("search=rust")), "http://h/s?search=rust");
    assert_eq!(target_url_for("", "/", Some("")), "/?");
}

fn xff(value: &str) -> Vec<HeaderField> {
    vec![HeaderField { name: "x-forwarded-for".to_string(), value: value.as_bytes().to_vec() }]
}

#[test]
fn trusted_proxy_forwards_client_address() {
    let trusted = vec![IpNet::v4(0xC0A8_0000, 16).unwrap()];
    let peer = IpAddress::V4(0xC0A8_0105);
    assert_eq!(get_client_ip(&peer, "192.168.1.5", &xff("1.2.3.4, 5.6.7.8"), &trusted), "1.2.3.4");
    assert_eq!(get_client_ip(&peer, "192.168.1.5", &xff(" 1.2.3.4"), &trusted), " 1.2.3.4");
    assert_eq!(get_client_ip(&peer, "192.168.1.5", &vec![], &trusted), "192.168.1.5");
}

#[test]
fn untrusted_peer_cannot_spoof() {
    let trusted = vec![IpNet::v4(0xC0A8_0000, 16).unwrap()];
    let peer = IpAddress::V4(0x7F00_0001);
    assert_eq!(get_client_ip(&peer, "127.0.0.1", &xff("1.2.3.4"), &trusted), "127.0.0.1");
    let v6 = IpAddress::V6(1);
    assert_eq!(get_client_ip(&v6, "::1", &xff("1.2.3.4"), &trusted), "::1");
}

#[test]
fn networks_hold_their_addresses() {
    let net = IpNet::v4(0xC0A8_0000, 16).unwrap();
    assert!(net.contains(&IpAddress::V4(0xC0A8_FFFF)));
    assert!(!net.contains(&IpAddress::V4(0xC0A9_0000)));
    assert!(!net.contains(&IpAddress::V6(0xC0A8_0001)));
    let all = IpNet::v4(0x0A00_0000, 0).unwrap();
    assert!(all.contains(&IpAddress::V4(0xFFFF_FFFF)));
    let host = IpNet::v4(0x0A00_0001, 32).unwrap();
    assert!(host.contains(&IpAddress::V4(0x0A00_0001)));
    assert!(!host.contains(&IpAddress::V4(0x0A00_0002)));
    let v6 = IpNet::v6(0xfd00u128 << 112, 8).unwrap();
    assert!(v6.contains(&IpAddress::V6((0xfd12u128 << 112) | 5)));
    assert!(!v6.contains(&IpAddress::V6(0xfe00u128 << 112)));
    assert!(IpNet::v6(0, 128).is_some());
}

#[test]
fn prefix_too_long_is_refused() {
    assert!(IpNet::v4(0, 33).is_none());
    assert!(IpNet::v6(0, 129).is_none());
}
