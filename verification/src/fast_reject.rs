//! The filter that screens every request before routing.

use vstd::prelude::*;
use vstd::utf8::encode_utf8;
use crate::config::FastRejectConfig;
use crate::request::{find_header, find_header_text, header_lookup, header_text, RequestParts};
use crate::text::{
    before_char, chars_of, chars_start_with, decimal, is_prefix, normalize_path, normalized_path,
    parse_decimal_usize, parse_usize, prefix_before, push_decimal, str_eq, trim, trimmed,
};

verus! {

broadcast use vstd::string::group_string_axioms;

/// Why a request was turned away.
pub enum RejectReason {
    BlacklistedIp(String),
    SuspiciousPath(String),
    TooManyHeaders(usize),
    UriTooLong(usize),
    MissingHostHeader,
    InvalidMethod(String),
    BodyTooLarge(usize),
}

/// A reason for turning a request away, with its strings as character sequences.
pub enum Rejection {
    BlacklistedIp(Seq<char>),
    SuspiciousPath(Seq<char>),
    TooManyHeaders(nat),
    UriTooLong(nat),
    MissingHostHeader,
    InvalidMethod(Seq<char>),
    BodyTooLarge(nat),
}

impl View for RejectReason {
    type V = Rejection;

    open spec fn view(&self) -> Rejection {
        match self {
            RejectReason::BlacklistedIp(ip) => Rejection::BlacklistedIp(ip@),
            RejectReason::SuspiciousPath(p) => Rejection::SuspiciousPath(p@),
            RejectReason::TooManyHeaders(n) => Rejection::TooManyHeaders(*n as nat),
            RejectReason::UriTooLong(n) => Rejection::UriTooLong(*n as nat),
            RejectReason::MissingHostHeader => Rejection::MissingHostHeader,
            RejectReason::InvalidMethod(m) => Rejection::InvalidMethod(m@),
            RejectReason::BodyTooLarge(n) => Rejection::BodyTooLarge(*n as nat),
        }
    }
}

/// The message that names a rejection.
pub open spec fn rejection_message(r: Rejection) -> Seq<char> {
    match r {
        Rejection::BlacklistedIp(ip) => "Blacklisted IP: "@ + ip,
        Rejection::SuspiciousPath(p) => "Suspicious Path: "@ + p,
        Rejection::TooManyHeaders(n) => "Too Many Headers: "@ + decimal(n),
        Rejection::UriTooLong(n) => "Uri Too Long: "@ + decimal(n),
        Rejection::MissingHostHeader => "Missing Host Header"@,
        Rejection::InvalidMethod(m) => "Invalid Method: "@ + m,
        Rejection::BodyTooLarge(n) => "Body Too Large: "@ + decimal(n),
    }
}

impl RejectReason {
    /// The message that names this reason, as shown to the client.
    pub fn to_string(&self) -> (s: String)
        ensures
            s@ == rejection_message(self@),
    {
        match self {
            RejectReason::BlacklistedIp(ip) => {
                let mut s = String::from_str("Blacklisted IP: ");
                s.append(ip.as_str());
                s
            },
            RejectReason::SuspiciousPath(p) => {
                let mut s = String::from_str("Suspicious Path: ");
                s.append(p.as_str());
                s
            },
            RejectReason::TooManyHeaders(n) => {
                let mut s = String::from_str("Too Many Headers: ");
                push_decimal(&mut s, *n);
                s
            },
            RejectReason::UriTooLong(n) => {
                let mut s = String::from_str("Uri Too Long: ");
                push_decimal(&mut s, *n);
                s
            },
            RejectReason::MissingHostHeader => String::from_str("Missing Host Header"),
            RejectReason::InvalidMethod(m) => {
                let mut s = String::from_str("Invalid Method: ");
                s.append(m.as_str());
                s
            },
            RejectReason::BodyTooLarge(n) => {
                let mut s = String::from_str("Body Too Large: ");
                push_decimal(&mut s, *n);
                s
            },
        }
    }
}

/// The characters of each string.
pub open spec fn strings_view(v: Seq<String>) -> Seq<Seq<char>> {
    v.map_values(|s: String| s@)
}

/// The methods the gateway forwards.
pub open spec fn is_allowed_method(m: Seq<char>) -> bool {
    m == "GET"@ || m == "PATCH"@ || m == "POST"@ || m == "PUT"@ || m == "DELETE"@ || m
        == "HEAD"@ || m == "OPTIONS"@
}

/// The client named first in the `X-Forwarded-For` header, trimmed, when the
/// header exists and reads as text.
pub open spec fn forwarded_client(req: RequestParts) -> Option<Seq<char>> {
    match header_text(req.headers@, "x-forwarded-for"@) {
        Some(t) => Some(trim(before_char(t, ','))),
        None => None,
    }
}

/// The body size the `Content-Length` header declares, when it exists, reads
/// as text and holds a `usize`.
pub open spec fn declared_body_size(req: RequestParts) -> Option<nat> {
    match header_text(req.headers@, "content-length"@) {
        Some(t) => parse_usize(t),
        None => None,
    }
}

/// The first of `blocked` that, normalised as a path, is a prefix of `path`
/// normalised as a path (runs of `/` collapsed, ASCII letters in lower case).
pub open spec fn first_blocked(blocked: Seq<Seq<char>>, path: Seq<char>) -> Option<Seq<char>>
    decreases blocked.len(),
{
    if blocked.len() == 0 {
        None
    } else if is_prefix(normalized_path(blocked[0]), normalized_path(path)) {
        Some(blocked[0])
    } else {
        first_blocked(blocked.drop_first(), path)
    }
}

/// Screens requests by client, size, method, headers and path.
pub struct FastRejectFilter {
    /// Clients turned away: the client a request comes from, and the first
    /// client its `X-Forwarded-For` header names.
    pub ip_blacklist: Vec<String>,
    pub blocked_paths: Vec<String>,
    pub max_header_count: usize,
    pub max_uri_length: usize,
    pub max_body_size: usize,
}

impl FastRejectFilter {
    /// The reason the filter turns `req` away, checked in order: blacklisted
    /// forwarded client, path too long (in bytes), method not forwarded, no
    /// `Host` header and no authority in the target, too many headers,
    /// declared body too large, blocked path prefix (compared after both are
    /// normalised). `None` when the request passes.
    pub open spec fn screen(self, req: RequestParts) -> Option<Rejection> {
        let path_len = encode_utf8(req.path@).len();
        if forwarded_client(req) is Some && strings_view(self.ip_blacklist@).contains(
            forwarded_client(req).unwrap(),
        ) {
            Some(Rejection::BlacklistedIp(forwarded_client(req).unwrap()))
        } else if path_len > self.max_uri_length {
            Some(Rejection::UriTooLong(path_len))
        } else if !is_allowed_method(req.method@) {
            Some(Rejection::InvalidMethod(req.method@))
        } else if header_lookup(req.headers@, "host"@) is None && req.authority is None {
            Some(Rejection::MissingHostHeader)
        } else if req.headers@.len() > self.max_header_count {
            Some(Rejection::TooManyHeaders(req.headers@.len()))
        } else if declared_body_size(req) is Some && declared_body_size(req).unwrap()
            > self.max_body_size {
            Some(Rejection::BodyTooLarge(declared_body_size(req).unwrap()))
        } else {
            match first_blocked(strings_view(self.blocked_paths@), req.path@) {
                Some(b) => Some(Rejection::SuspiciousPath(b)),
                None => None,
            }
        }
    }

    /// The reason the filter turns away `req`, which came from the client
    /// known by `client` (its own address, or the address a trusted proxy
    /// forwarded for): a blacklisted client first, then as `screen`.
    pub open spec fn screen_from(self, req: RequestParts, client: Seq<char>) -> Option<Rejection> {
        if strings_view(self.ip_blacklist@).contains(client) {
            Some(Rejection::BlacklistedIp(client))
        } else {
            self.screen(req)
        }
    }

    /// A filter with the limits and deny lists of `config`.
    pub fn new(config: &FastRejectConfig) -> (f: FastRejectFilter)
        ensures
            strings_view(f.ip_blacklist@) == strings_view(config.ip_blacklist@),
            strings_view(f.blocked_paths@) == strings_view(config.blocked_paths@),
            f.max_header_count == config.max_header_count,
            f.max_uri_length == config.max_uri_length,
            f.max_body_size == config.max_body_size,
    {
        FastRejectFilter {
            ip_blacklist: clone_strings(&config.ip_blacklist),
            blocked_paths: clone_strings(&config.blocked_paths),
            max_header_count: config.max_header_count,
            max_uri_length: config.max_uri_length,
            max_body_size: config.max_body_size,
        }
    }

    /// Screens `req`: `Ok` when it passes, else the first reason it fails.
    pub fn check_request(&self, req: &RequestParts) -> (r: Result<(), RejectReason>)
        ensures
            r is Ok <==> self.screen(*req) is None,
            r matches Err(e) ==> self.screen(*req) == Some(e@),
    {
        if let Some(text) = find_header_text(&req.headers, "x-forwarded-for") {
            let first = prefix_before(&text, ',');
            let client = trimmed(&chars_of(first.as_str()));
            if contains_string(&self.ip_blacklist, client.as_str()) {
                return Err(RejectReason::BlacklistedIp(client));
            }
        }
        let path_len = req.path.as_str().as_bytes().len();
        if path_len > self.max_uri_length {
            return Err(RejectReason::UriTooLong(path_len));
        }
        let m = req.method.as_str();
        if !(str_eq(m, "GET") || str_eq(m, "PATCH") || str_eq(m, "POST") || str_eq(m, "PUT")
            || str_eq(m, "DELETE") || str_eq(m, "HEAD") || str_eq(m, "OPTIONS")) {
            return Err(RejectReason::InvalidMethod(req.method.clone()));
        }
        if find_header(&req.headers, "host").is_none() && req.authority.is_none() {
            return Err(RejectReason::MissingHostHeader);
        }
        let header_count = req.headers.len();
        if header_count > self.max_header_count {
            return Err(RejectReason::TooManyHeaders(header_count));
        }
        if let Some(text) = find_header_text(&req.headers, "content-length") {
            if let Some(len) = parse_decimal_usize(&text) {
                if len > self.max_body_size {
                    return Err(RejectReason::BodyTooLarge(len));
                }
            }
        }
        match first_blocked_prefix(&self.blocked_paths, req.path.as_str()) {
            Some(i) => Err(RejectReason::SuspiciousPath(self.blocked_paths[i].clone())),
            None => Ok(()),
        }
    }
}

impl FastRejectFilter {
    /// Screens `req`, which came from the client known by `client`: `Ok` when
    /// it passes, else the first reason it fails (see `screen_from`).
    pub fn check_request_from(&self, req: &RequestParts, client: &str) -> (r: Result<(), RejectReason>)
        ensures
            r is Ok <==> self.screen_from(*req, client@) is None,
            r matches Err(e) ==> self.screen_from(*req, client@) == Some(e@),
    {
        if contains_string(&self.ip_blacklist, client) {
            return Err(RejectReason::BlacklistedIp(String::from_str(client)));
        }
        self.check_request(req)
    }
}

/// A copy of the strings of `v`.
pub fn clone_strings(v: &Vec<String>) -> (r: Vec<String>)
    ensures
        strings_view(r@) == strings_view(v@),
{
    let mut r: Vec<String> = Vec::new();
    let mut i: usize = 0;
    while i < v.len()
        invariant
            i <= v.len(),
            r@.len() == i,
            forall|k: int| 0 <= k < i ==> (#[trigger] r@[k])@ == v@[k]@,
        decreases v.len() - i,
    {
        r.push(v[i].clone());
        i = i + 1;
    }
    assert(strings_view(r@) =~= strings_view(v@));
    r
}

/// Whether `s` is one of the strings of `v`.
pub fn contains_string(v: &Vec<String>, s: &str) -> (r: bool)
    ensures
        r == strings_view(v@).contains(s@),
{
    let mut i: usize = 0;
    while i < v.len()
        invariant
            i <= v.len(),
            forall|k: int| 0 <= k < i ==> (#[trigger] v@[k])@ != s@,
        decreases v.len() - i,
    {
        if str_eq(v[i].as_str(), s) {
            assert(strings_view(v@)[i as int] == s@);
            return true;
        }
        i = i + 1;
    }
    assert forall|k: int| 0 <= k < strings_view(v@).len() implies strings_view(v@)[k] != s@ by {
        assert(strings_view(v@)[k] == v@[k]@);
    }
    false
}

proof fn lemma_first_blocked_skip(blocked: Seq<Seq<char>>, path: Seq<char>, i: int)
    requires
        0 <= i < blocked.len(),
        !is_prefix(normalized_path(blocked[i]), normalized_path(path)),
    ensures
        first_blocked(blocked.skip(i), path) == first_blocked(blocked.skip(i + 1), path),
{
    assert(blocked.skip(i).drop_first() =~= blocked.skip(i + 1));
}

/// The index of the first of `blocked` that, normalised, is a prefix of the
/// normalised `path` (see `first_blocked`).
pub fn first_blocked_prefix(blocked: &Vec<String>, path: &str) -> (r: Option<usize>)
    ensures
        r matches Some(i) ==> i < blocked.len() && first_blocked(strings_view(blocked@), path@)
            == Some(blocked@[i as int]@),
        r is None ==> first_blocked(strings_view(blocked@), path@) is None,
{
    let ghost bs = strings_view(blocked@);
    let normal = normalize_path(path);
    let mut i: usize = 0;
    assert(bs.skip(0) =~= bs);
    while i < blocked.len()
        invariant
            i <= blocked.len(),
            bs == strings_view(blocked@),
            normal@ == normalized_path(path@),
            first_blocked(bs, path@) == first_blocked(bs.skip(i as int), path@),
        decreases blocked.len() - i,
    {
        let pattern = normalize_path(blocked[i].as_str());
        assert(bs[i as int] == blocked@[i as int]@);
        if chars_start_with(&normal, &pattern) {
            assert(bs.skip(i as int)[0] == blocked@[i as int]@);
            return Some(i);
        }
        proof {
            lemma_first_blocked_skip(bs, path@, i as int);
        }
        i = i + 1;
    }
    None
}

/// A request the filter lets through has a forwarded method, a `Host`
/// header, at most the allowed number of headers, a path within the length
/// limit, no declared body above the size limit, no blocked path prefix, and
/// no blacklisted forwarded client.
pub proof fn law_passing_request_meets_limits(f: FastRejectFilter, req: RequestParts)
    requires
        f.screen(req) is None,
    ensures
        is_allowed_method(req.method@),
        header_lookup(req.headers@, "host"@) is Some || req.authority is Some,
        req.headers@.len() <= f.max_header_count,
        encode_utf8(req.path@).len() <= f.max_uri_length,
        declared_body_size(req) matches Some(n) ==> n <= f.max_body_size,
        first_blocked(strings_view(f.blocked_paths@), req.path@) is None,
        forwarded_client(req) matches Some(c) ==> !strings_view(f.ip_blacklist@).contains(c),
{
}

/// A request is turned away as coming from a blacklisted client only when
/// that client is exactly one of the blacklist entries (for `screen`, the
/// client its `X-Forwarded-For` header names first); a forwarded client that
/// equals no entry is never the reason.
pub proof fn law_blacklist_is_exact_membership(f: FastRejectFilter, req: RequestParts, client: Seq<char>)
    ensures
        f.screen(req) matches Some(Rejection::BlacklistedIp(c)) ==> strings_view(
            f.ip_blacklist@,
        ).contains(c) && forwarded_client(req) == Some(c),
        f.screen_from(req, client) matches Some(Rejection::BlacklistedIp(c)) ==> strings_view(
            f.ip_blacklist@,
        ).contains(c),
        forwarded_client(req) matches Some(c) && !strings_view(f.ip_blacklist@).contains(c) ==> !(
        f.screen(req) matches Some(Rejection::BlacklistedIp(_))),
{
}

/// A request let through from a client is from a client that is not
/// blacklisted, and passes every check of `screen` as well.
pub proof fn law_passing_client_is_not_blacklisted(f: FastRejectFilter, req: RequestParts, client: Seq<char>)
    requires
        f.screen_from(req, client) is None,
    ensures
        !strings_view(f.ip_blacklist@).contains(client),
        f.screen(req) is None,
{
}

} // verus!
