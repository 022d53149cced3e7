use ring::rand::SystemRandom;
use ring::signature::Ed25519KeyPair;
use zero_trust_gateway::config::{FastRejectConfig, RateLimitConfig, RouteConfig};
use zero_trust_gateway::fast_reject::FastRejectFilter;
use zero_trust_gateway::metrics::GatewayMetrics;
use zero_trust_gateway::net::{IpAddress, IpNet};
use zero_trust_gateway::proxy::{
    path_with_query, CacheMark, ProxyAction, ProxyEvent, ProxyRequest, ProxySettings, ProxyStage,
    ReplyBody, MAX_BODY_BYTES,
};
use zero_trust_gateway::request::{HeaderField, RequestParts};
use zero_trust_gateway::signature::{sign_request_at, GatewaySigningKey};

fn route(path: &str, auth: bool, ai: Option<bool>) -> RouteConfig {
    RouteConfig {
        path: path.to_string(),
        target: "http://127.0.0.1:9000/".to_string(),
        strip_prefix: true,
        auth_required: auth,
        rate_limit: None,
        ai_caching: ai,
    }
}

fn signing_key() -> GatewaySigningKey {
    let doc = Ed25519KeyPair::generate_pkcs8(&SystemRandom::new()).unwrap();
    GatewaySigningKey::from_pkcs8(doc.as_ref()).unwrap()
}

fn settings(routes: Vec<RouteConfig>) -> ProxySettings {
    ProxySettings {
        routes,
        trusted_proxies: vec![IpNet::v4(0xC0A8_0000, 16).unwrap()],
        filter: FastRejectFilter::new(&FastRejectConfig {
            max_header_count: 50,
            max_uri_length: 2048,
            max_body_size: 10 * 1024 * 1024,
            blocked_paths: vec!["/wp-admin".to_string()],
            ip_blacklist: vec!["192.168.1.100".to_string()],
        }),
        ai_cache_enabled: true,
        signing_key: signing_key(),
    }
}

fn request(method: &str, path: &str, extra: Vec<(&str, &str)>) -> ProxyRequest {
    let mut headers = vec![HeaderField { name: "host".to_string(), value: b"localhost".to_vec() }];
    for (n, v) in extra {
        headers.push(HeaderField { name: n.to_string(), value: v.as_bytes().to_vec() });
    }
    ProxyRequest {
        parts: RequestParts {
            method: method.to_string(),
            path: path.to_string(),
            query: None,
            headers,
            authority: None,
        },
        peer: IpAddress::V4(0x7F00_0001),
        peer_text: "127.0.0.1".to_string(),
    }
}

fn status_and_text(a: &ProxyAction) -> (u16, String) {
    match a {
        ProxyAction::Respond(r) => match &r.body {
            ReplyBody::Text(t) => (r.status, t.clone()),
            ReplyBody::Empty => (r.status, String::new()),
            ReplyBody::Bytes(b) => (r.status, String::from_utf8(b.clone()).unwrap()),
        },
        _ => panic!("expected a reply"),
    }
}

/// Checks a signed forward: its address, its body, and that its signature
/// signs `method`, `signed_path`, its timestamp and its body.
fn assert_signed_forward(a: &ProxyAction, s: &ProxySettings, method: &str, signed_path: &str, url: &str, sent: &[u8]) {
    match a {
        ProxyAction::ForwardSigned { target_url, signature, timestamp, body } => {
            assert_eq!(target_url, url);
            assert_eq!(body.as_slice(), sent);
            assert_eq!(signature.len(), 88);
            assert_eq!(signature, &sign_request_at(&s.signing_key, method, signed_path, timestamp, sent));
        },
        _ => panic!("expected a signed forward"),
    }
}

#[test]
fn plain_request_is_signed_and_forwarded() {
    let s = settings(vec![route("/api/test", false, None)]);
    let mut req = request("GET", "/api/test/target-path", vec![]);
    req.parts.query = Some("q=1".to_string());
    let mut m = GatewayMetrics::new();
    let mut st = ProxyStage::new();
    match st.step(&req, &s, &mut m, ProxyEvent::Arrived) {
        ProxyAction::CheckRateLimit { client_key, limit } => {
            assert_eq!(client_key, "/api/test:127.0.0.1");
            assert_eq!(limit, None);
        },
        _ => panic!("expected a rate check"),
    }
    assert!(matches!(
        st.step(&req, &s, &mut m, ProxyEvent::RateChecked(true)),
        ProxyAction::ReadBody { limit } if limit == MAX_BODY_BYTES
    ));
    let a = st.step(&req, &s, &mut m, ProxyEvent::BodyRead(Some(vec![])));
    assert_signed_forward(&a, &s, "GET", "/target-path?q=1", "http://127.0.0.1:9000/target-path?q=1", b"");
    assert!(matches!(
        st.step(&req, &s, &mut m, ProxyEvent::UpstreamReplied(Ok(200))),
        ProxyAction::BuildResponse { status: 200 }
    ));
    assert!(matches!(st.step(&req, &s, &mut m, ProxyEvent::ResponseBuilt(true)), ProxyAction::Done));
    assert!(matches!(st, ProxyStage::Finished));
    let snap = m.get_snapshot();
    assert_eq!((snap.total_requests, snap.total_errors), (1, 0));
}

#[test]
fn signed_path_carries_the_query() {
    assert_eq!(path_with_query("/users", Some("user_id=1")), "/users?user_id=1");
    assert_eq!(path_with_query("/users", None), "/users");
    assert_eq!(path_with_query("/", Some("")), "/?");
}

#[test]
fn unknown_route_gets_404_and_counts_an_error() {
    let s = settings(vec![route("/api/test", false, None)]);
    let req = request("GET", "/nothing", vec![]);
    let mut m = GatewayMetrics::new();
    let mut st = ProxyStage::new();
    let a = st.step(&req, &s, &mut m, ProxyEvent::Arrived);
    assert_eq!(status_and_text(&a), (404, "Không tìm thấy đường dẫn cấu hình tại Gateway".to_string()));
    assert_eq!((m.total_requests, m.total_errors), (1, 1));
}

#[test]
fn route_suffix_is_not_a_match() {
    let mut r = route("/api/v1/orders", false, None);
    r.target = "http://127.0.0.1:8082".to_string();
    let s = settings(vec![r]);
    let req = request("GET", "/api/v1/orders_malicious", vec![]);
    let mut m = GatewayMetrics::new();
    let mut st = ProxyStage::new();
    let a = st.step(&req, &s, &mut m, ProxyEvent::Arrived);
    assert_eq!(status_and_text(&a), (404, "Không tìm thấy đường dẫn cấu hình tại Gateway".to_string()));
}

#[test]
fn filtered_request_gets_400_with_reason() {
    let s = settings(vec![route("/", false, None)]);
    for path in ["/wp-admin", "//wp-admin", "/WP-ADMIN"] {
        let req = request("GET", path, vec![]);
        let mut m = GatewayMetrics::new();
        let mut st = ProxyStage::new();
        let a = st.step(&req, &s, &mut m, ProxyEvent::Arrived);
        assert_eq!(status_and_text(&a), (400, "Suspicious Path: /wp-admin".to_string()));
        assert_eq!(m.total_errors, 1);
    }
}

#[test]
fn blacklisted_peer_is_turned_away_without_forwarded_header() {
    let s = settings(vec![route("/", false, None)]);
    let mut req = request("GET", "/api/v1/orders", vec![]);
    req.peer = IpAddress::V4(0xC0A8_0164);
    req.peer_text = "192.168.1.100".to_string();
    let mut m = GatewayMetrics::new();
    let mut st = ProxyStage::new();
    let a = st.step(&req, &s, &mut m, ProxyEvent::Arrived);
    assert_eq!(status_and_text(&a), (400, "Blacklisted IP: 192.168.1.100".to_string()));
    // Spoofing another address from an untrusted peer does not help either.
    let mut spoofed = request("GET", "/x", vec![("x-forwarded-for", "8.8.8.8")]);
    spoofed.peer = IpAddress::V6(5);
    spoofed.peer_text = "192.168.1.100".to_string();
    let mut st = ProxyStage::new();
    let a = st.step(&spoofed, &s, &mut m, ProxyEvent::Arrived);
    assert_eq!(status_and_text(&a).0, 400);
    assert_eq!(m.total_errors, 2);
}

#[test]
fn authority_stands_in_for_host() {
    let s = settings(vec![route("/api", false, None)]);
    let mut req = request("GET", "/api/x", vec![]);
    req.parts.headers.clear();
    req.parts.authority = Some("localhost".to_string());
    let mut m = GatewayMetrics::new();
    let mut st = ProxyStage::new();
    assert!(matches!(st.step(&req, &s, &mut m, ProxyEvent::Arrived), ProxyAction::CheckRateLimit { .. }));
    req.parts.authority = None;
    let mut st = ProxyStage::new();
    let a = st.step(&req, &s, &mut m, ProxyEvent::Arrived);
    assert_eq!(status_and_text(&a), (400, "Missing Host Header".to_string()));
}

#[test]
fn refused_client_gets_429() {
    let s = settings(vec![route("/api", false, None)]);
    let req = request("GET", "/api/x", vec![("x-forwarded-for", "1.1.1.1")]);
    let mut m = GatewayMetrics::new();
    let mut st = ProxyStage::new();
    st.step(&req, &s, &mut m, ProxyEvent::Arrived);
    let a = st.step(&req, &s, &mut m, ProxyEvent::RateChecked(false));
    assert_eq!(status_and_text(&a), (429, "Too Many Requests".to_string()));
    assert_eq!(m.total_errors, 1);
}

#[test]
fn route_budget_goes_to_the_rate_limiter() {
    let mut orders = route("/api/v1/orders", false, None);
    orders.rate_limit = Some(RateLimitConfig { max_requests: 50, per_seconds: 60 });
    let s = settings(vec![orders, route("/api", false, None)]);
    let req = request("GET", "/api/v1/orders/1", vec![]);
    let mut m = GatewayMetrics::new();
    let mut st = ProxyStage::new();
    match st.step(&req, &s, &mut m, ProxyEvent::Arrived) {
        ProxyAction::CheckRateLimit { client_key, limit } => {
            assert_eq!(client_key, "/api/v1/orders:127.0.0.1");
            assert_eq!(limit, Some((50, 60)));
        },
        _ => panic!("expected a rate check"),
    }
    let other = request("GET", "/api/v2/x", vec![]);
    let mut st = ProxyStage::new();
    match st.step(&other, &s, &mut m, ProxyEvent::Arrived) {
        ProxyAction::CheckRateLimit { client_key, limit } => {
            assert_eq!(client_key, "/api:127.0.0.1");
            assert_eq!(limit, None);
        },
        _ => panic!("expected a rate check"),
    }
}

#[test]
fn trusted_proxy_client_key_is_forwarded_address() {
    let s = settings(vec![route("/api", false, None)]);
    let mut req = request("GET", "/api/x", vec![("x-forwarded-for", "203.0.113.7, 10.0.0.1")]);
    req.peer = IpAddress::V4(0xC0A8_0001);
    req.peer_text = "192.168.0.1".to_string();
    let mut m = GatewayMetrics::new();
    let mut st = ProxyStage::new();
    match st.step(&req, &s, &mut m, ProxyEvent::Arrived) {
        ProxyAction::CheckRateLimit { client_key, .. } => assert_eq!(client_key, "/api:203.0.113.7"),
        _ => panic!("expected a rate check"),
    }
}

#[test]
fn test_jwt_auth_flow() {
    let s = settings(vec![route("/api/secure", true, None)]);
    // No token: 401, counted as an error.
    let req = request("GET", "/api/secure/secure-data", vec![]);
    let mut m = GatewayMetrics::new();
    let mut st = ProxyStage::new();
    st.step(&req, &s, &mut m, ProxyEvent::Arrived);
    let a = st.step(&req, &s, &mut m, ProxyEvent::RateChecked(true));
    assert_eq!(status_and_text(&a).0, 401);
    assert_eq!(m.total_errors, 1);
    // A token that fails verification: 401, counted.
    let req = request("GET", "/api/secure/secure-data", vec![("authorization", "Bearer invalid-token-xyz")]);
    let mut st = ProxyStage::new();
    st.step(&req, &s, &mut m, ProxyEvent::Arrived);
    match st.step(&req, &s, &mut m, ProxyEvent::RateChecked(true)) {
        ProxyAction::VerifyToken { token } => assert_eq!(token, "invalid-token-xyz"),
        _ => panic!("expected a token check"),
    }
    let a = st.step(&req, &s, &mut m, ProxyEvent::TokenChecked(false));
    assert_eq!(status_and_text(&a).0, 401);
    assert_eq!(m.total_errors, 2);
    // A valid token, with the scheme in lower case: the body is read and the
    // request forwarded.
    let req = request("GET", "/api/secure/secure-data", vec![("authorization", "bearer good")]);
    let mut st = ProxyStage::new();
    st.step(&req, &s, &mut m, ProxyEvent::Arrived);
    match st.step(&req, &s, &mut m, ProxyEvent::RateChecked(true)) {
        ProxyAction::VerifyToken { token } => assert_eq!(token, "good"),
        _ => panic!("expected a token check"),
    }
    assert!(matches!(
        st.step(&req, &s, &mut m, ProxyEvent::TokenChecked(true)),
        ProxyAction::ReadBody { .. }
    ));
    assert!(matches!(
        st.step(&req, &s, &mut m, ProxyEvent::BodyRead(Some(vec![]))),
        ProxyAction::ForwardSigned { .. }
    ));
    assert_eq!((m.total_requests, m.total_errors), (3, 2));
}

#[test]
fn upstream_failures_are_reported() {
    let s = settings(vec![route("/api", false, None)]);
    let req = request("POST", "/api/x", vec![]);
    let mut m = GatewayMetrics::new();
    let mut st = ProxyStage::new();
    st.step(&req, &s, &mut m, ProxyEvent::Arrived);
    st.step(&req, &s, &mut m, ProxyEvent::RateChecked(true));
    st.step(&req, &s, &mut m, ProxyEvent::BodyRead(Some(b"x".to_vec())));
    let a = st.step(&req, &s, &mut m, ProxyEvent::UpstreamReplied(Err("refused".to_string())));
    assert_eq!(status_and_text(&a), (502, "Lỗi kết nối upstream: refused".to_string()));
    assert_eq!(m.total_errors, 1);

    let mut st = ProxyStage::new();
    st.step(&req, &s, &mut m, ProxyEvent::Arrived);
    st.step(&req, &s, &mut m, ProxyEvent::RateChecked(true));
    let a = st.step(&req, &s, &mut m, ProxyEvent::BodyRead(None));
    assert_eq!(status_and_text(&a), (400, "Không thể đọc request body".to_string()));

    let mut st = ProxyStage::new();
    st.step(&req, &s, &mut m, ProxyEvent::Arrived);
    st.step(&req, &s, &mut m, ProxyEvent::RateChecked(true));
    st.step(&req, &s, &mut m, ProxyEvent::BodyRead(Some(vec![])));
    st.step(&req, &s, &mut m, ProxyEvent::UpstreamReplied(Ok(201)));
    let a = st.step(&req, &s, &mut m, ProxyEvent::ResponseBuilt(false));
    assert_eq!(status_and_text(&a), (500, "Lỗi hệ thống khi xây dựng response".to_string()));
    assert_eq!(m.total_errors, 3);
}

#[test]
fn unexpected_event_changes_nothing() {
    let s = settings(vec![route("/api", false, None)]);
    let req = request("GET", "/api", vec![]);
    let mut m = GatewayMetrics::new();
    let mut st = ProxyStage::new();
    assert!(matches!(st.step(&req, &s, &mut m, ProxyEvent::CacheStored), ProxyAction::Unexpected));
    assert!(matches!(st, ProxyStage::Received));
    assert_eq!(m.total_requests, 0);
}

const CHAT_MISS: &str = r#"{"model":"gpt","messages":[{"role":"user","content":"Xin chào AI!"}]}"#;
const CHAT_HIT: &str = r#"{"messages":[{"role":"system","content":"x"},{"role":"user","content":"AI ơi, chào bạn!"}]}"#;
const ANSWER: &str =
    r#"{"choices":[{"message":{"role":"assistant","content":"Đây là câu trả lời từ Upstream AI!"}}]}"#;

#[test]
fn test_ai_caching_flow() {
    let s = settings(vec![route("/api/ai", false, Some(true))]);
    let req = request("POST", "/api/ai/v1/chat/completions", vec![]);
    let mut m = GatewayMetrics::new();
    // First request: cache miss, answer fetched upstream and stored.
    let mut st = ProxyStage::new();
    st.step(&req, &s, &mut m, ProxyEvent::Arrived);
    st.step(&req, &s, &mut m, ProxyEvent::RateChecked(true));
    match st.step(&req, &s, &mut m, ProxyEvent::BodyRead(Some(CHAT_MISS.as_bytes().to_vec()))) {
        ProxyAction::LookupCache { prompt } => assert_eq!(prompt, "Xin chào AI!"),
        _ => panic!("expected a cache lookup"),
    }
    let a = st.step(&req, &s, &mut m, ProxyEvent::CacheAnswered(None));
    assert_signed_forward(
        &a,
        &s,
        "POST",
        "/v1/chat/completions",
        "http://127.0.0.1:9000/v1/chat/completions",
        CHAT_MISS.as_bytes(),
    );
    assert!(matches!(
        st.step(&req, &s, &mut m, ProxyEvent::UpstreamReplied(Ok(200))),
        ProxyAction::ReadUpstreamBody
    ));
    match st.step(&req, &s, &mut m, ProxyEvent::UpstreamBodyRead(Ok(ANSWER.as_bytes().to_vec()))) {
        ProxyAction::StoreInCache { prompt, answer } => {
            assert_eq!(prompt, "Xin chào AI!");
            assert_eq!(answer, "Đây là câu trả lời từ Upstream AI!");
        },
        _ => panic!("expected storing"),
    }
    match st.step(&req, &s, &mut m, ProxyEvent::CacheStored) {
        ProxyAction::Respond(r) => {
            assert_eq!(r.status, 200);
            assert!(matches!(r.cache, CacheMark::Miss));
            assert!(matches!(r.body, ReplyBody::Bytes(ref b) if b == ANSWER.as_bytes()));
        },
        _ => panic!("expected a reply"),
    }
    // Second request: answered from the cache.
    let mut st = ProxyStage::new();
    st.step(&req, &s, &mut m, ProxyEvent::Arrived);
    st.step(&req, &s, &mut m, ProxyEvent::RateChecked(true));
    match st.step(&req, &s, &mut m, ProxyEvent::BodyRead(Some(CHAT_HIT.as_bytes().to_vec()))) {
        ProxyAction::LookupCache { prompt } => assert_eq!(prompt, "AI ơi, chào bạn!"),
        _ => panic!("expected a cache lookup"),
    }
    match st.step(&req, &s, &mut m, ProxyEvent::CacheAnswered(Some("Đây là câu trả lời từ Upstream AI!".to_string()))) {
        ProxyAction::Respond(r) => {
            assert_eq!(r.status, 200);
            assert!(matches!(r.cache, CacheMark::Hit));
            assert!(matches!(r.body, ReplyBody::Text(ref t) if t == "Đây là câu trả lời từ Upstream AI!"));
        },
        _ => panic!("expected a cached reply"),
    }
    let snap = m.get_snapshot();
    assert_eq!((snap.total_requests, snap.ai_cache_hits, snap.ai_cache_misses, snap.total_errors), (2, 1, 1, 0));
}

#[test]
fn answer_without_completion_text_is_not_stored() {
    let s = settings(vec![route("/api/ai", false, Some(true))]);
    let req = request("POST", "/api/ai/chat", vec![]);
    for (status, answer) in [(200u16, &b"not json"[..]), (200, &b"{\"choices\":[]}"[..]), (500, ANSWER.as_bytes())] {
        let mut m = GatewayMetrics::new();
        let mut st = ProxyStage::new();
        st.step(&req, &s, &mut m, ProxyEvent::Arrived);
        st.step(&req, &s, &mut m, ProxyEvent::RateChecked(true));
        st.step(&req, &s, &mut m, ProxyEvent::BodyRead(Some(CHAT_MISS.as_bytes().to_vec())));
        st.step(&req, &s, &mut m, ProxyEvent::CacheAnswered(None));
        st.step(&req, &s, &mut m, ProxyEvent::UpstreamReplied(Ok(status)));
        match st.step(&req, &s, &mut m, ProxyEvent::UpstreamBodyRead(Ok(answer.to_vec()))) {
            ProxyAction::Respond(r) => {
                assert_eq!(r.status, status);
                assert!(matches!(r.cache, CacheMark::Miss));
                assert!(matches!(r.body, ReplyBody::Bytes(ref b) if b == answer));
            },
            _ => panic!("expected a reply"),
        }
        assert_eq!(m.total_errors, 0);
    }
}

#[test]
fn chat_errors_are_answered_and_counted() {
    let s = settings(vec![route("/api/ai", false, Some(true))]);
    let req = request("POST", "/api/ai/chat", vec![]);
    let mut m = GatewayMetrics::new();
    let mut st = ProxyStage::new();
    st.step(&req, &s, &mut m, ProxyEvent::Arrived);
    st.step(&req, &s, &mut m, ProxyEvent::RateChecked(true));
    let a = st.step(&req, &s, &mut m, ProxyEvent::BodyRead(Some(b"nope".to_vec())));
    assert_eq!(status_and_text(&a), (400, "Invalid JSON body".to_string()));
    assert_eq!(m.total_errors, 1);

    let mut st = ProxyStage::new();
    st.step(&req, &s, &mut m, ProxyEvent::Arrived);
    st.step(&req, &s, &mut m, ProxyEvent::RateChecked(true));
    let a = st.step(&req, &s, &mut m, ProxyEvent::BodyRead(Some(b"{}".to_vec())));
    assert_eq!(status_and_text(&a), (400, "Missing user prompt in messages".to_string()));
    assert_eq!(m.total_errors, 2);

    let mut st = ProxyStage::new();
    st.step(&req, &s, &mut m, ProxyEvent::Arrived);
    st.step(&req, &s, &mut m, ProxyEvent::RateChecked(true));
    st.step(&req, &s, &mut m, ProxyEvent::BodyRead(Some(CHAT_MISS.as_bytes().to_vec())));
    st.step(&req, &s, &mut m, ProxyEvent::CacheAnswered(None));
    st.step(&req, &s, &mut m, ProxyEvent::UpstreamReplied(Ok(200)));
    let a = st.step(&req, &s, &mut m, ProxyEvent::UpstreamBodyRead(Err("cut".to_string())));
    assert_eq!(status_and_text(&a), (502, "Lỗi đọc response từ upstream: cut".to_string()));
    assert_eq!(m.total_errors, 3);
}

#[test]
fn tool_requests_bypass_the_cache() {
    let s = settings(vec![route("/api/ai", false, Some(true))]);
    let mut req = request("POST", "/api/ai/chat", vec![]);
    req.parts.query = Some("v=2".to_string());
    let tools = br#"{"tools":[],"messages":[{"role":"user","content":"hi"}]}"#.to_vec();
    let mut m = GatewayMetrics::new();
    let mut st = ProxyStage::new();
    st.step(&req, &s, &mut m, ProxyEvent::Arrived);
    st.step(&req, &s, &mut m, ProxyEvent::RateChecked(true));
    let a = st.step(&req, &s, &mut m, ProxyEvent::BodyRead(Some(tools.clone())));
    assert_signed_forward(&a, &s, "POST", "/chat?v=2", "http://127.0.0.1:9000/chat?v=2", &tools);
    st.step(&req, &s, &mut m, ProxyEvent::UpstreamReplied(Ok(200)));
    match st.step(&req, &s, &mut m, ProxyEvent::UpstreamBodyRead(Ok(ANSWER.as_bytes().to_vec()))) {
        ProxyAction::Respond(r) => assert!(matches!(r.cache, CacheMark::Miss)),
        _ => panic!("expected a reply"),
    }
    let rpc = br#"{"jsonrpc":"2.0","method":"tools/call"}"#.to_vec();
    let a = {
        let mut st = ProxyStage::new();
        st.step(&req, &s, &mut m, ProxyEvent::Arrived);
        st.step(&req, &s, &mut m, ProxyEvent::RateChecked(true));
        assert!(matches!(
            st.step(&req, &s, &mut m, ProxyEvent::BodyRead(Some(rpc))),
            ProxyAction::ForwardSigned { .. }
        ));
        st.step(&req, &s, &mut m, ProxyEvent::UpstreamReplied(Err("down".to_string())))
    };
    assert_eq!(status_and_text(&a), (502, "Lỗi kết nối upstream: down".to_string()));
    assert_eq!((m.ai_cache_hits, m.ai_cache_misses, m.total_errors), (0, 0, 1));
}

#[test]
fn ai_route_without_cache_is_forwarded_plainly() {
    let mut s = settings(vec![route("/api/ai", false, Some(true))]);
    s.ai_cache_enabled = false;
    let req = request("POST", "/api/ai/chat", vec![]);
    let mut m = GatewayMetrics::new();
    let mut st = ProxyStage::new();
    st.step(&req, &s, &mut m, ProxyEvent::Arrived);
    st.step(&req, &s, &mut m, ProxyEvent::RateChecked(true));
    let a = st.step(&req, &s, &mut m, ProxyEvent::BodyRead(Some(b"not json".to_vec())));
    assert_signed_forward(&a, &s, "POST", "/chat", "http://127.0.0.1:9000/chat", b"not json");
    assert!(matches!(st, ProxyStage::Forwarding));
}
