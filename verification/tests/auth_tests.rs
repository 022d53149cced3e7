use zero_trust_gateway::auth::{extract_token_from_header, Claims};
use zero_trust_gateway::request::HeaderField;

fn auth(value: &[u8]) -> Vec<HeaderField> {
    vec![HeaderField { name: "authorization".to_string(), value: value.to_vec() }]
}

#[test]
fn bearer_token_is_extracted() {
    assert_eq!(extract_token_from_header(&auth(b"Bearer abc.def.ghi")), Some("abc.def.ghi".to_string()));
}

#[test]
fn surrounding_whitespace_is_allowed() {
    assert_eq!(extract_token_from_header(&auth(b"  Bearer \t tok  ")), Some("tok".to_string()));
}

#[test]
fn other_schemes_and_shapes_are_refused() {
    for v in [
        &b"Basic tok"[..],
        &b"Bearer"[..],
        &b"Bearer "[..],
        &b"Bearer a b"[..],
        &b"Bearertok"[..],
        &b""[..],
        &b"Bearer t\x80k"[..],
    ] {
        assert_eq!(extract_token_from_header(&auth(v)), None);
    }
}

#[test]
fn scheme_is_matched_in_any_case() {
    assert_eq!(extract_token_from_header(&auth(b"bearer abc")), Some("abc".to_string()));
    assert_eq!(extract_token_from_header(&auth(b"BEARER abc")), Some("abc".to_string()));
    assert_eq!(extract_token_from_header(&auth(b" bEaReR\tabc ")), Some("abc".to_string()));
    assert_eq!(extract_token_from_header(&auth(b"bearers abc")), None);
}

#[test]
fn missing_header_gives_no_token() {
    let hs = vec![HeaderField { name: "host".to_string(), value: b"h".to_vec() }];
    assert_eq!(extract_token_from_header(&hs), None);
}

#[test]
fn first_authorization_header_counts() {
    let mut hs = auth(b"Basic x");
    hs.extend(auth(b"Bearer second"));
    assert_eq!(extract_token_from_header(&hs), None);
}

#[test]
fn claims_hold_their_fields() {
    let c = Claims { sub: "test-user-vinh".to_string(), exp: 3600, iss: "test".to_string() };
    assert_eq!(c.sub, "test-user-vinh");
    assert_eq!(c.exp, 3600);
    assert_eq!(c.iss, "test");
}
