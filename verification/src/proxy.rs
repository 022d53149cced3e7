//! The decisions of the gateway's request pipeline, as a state machine.
//!
//! The gateway handles one request by feeding the outcome of each piece of
//! outside work (a rate-limit check, a token check, reading the body, talking
//! to the upstream service, the semantic cache) to `ProxyStage::step`, which
//! decides what happens next and keeps the request counters.

use vstd::prelude::*;
use vstd::utf8::encode_utf8;
use crate::auth::{extract_token_from_header, is_bearer_form};
use crate::config::RouteConfig;
use crate::fast_reject::{rejection_message, FastRejectFilter};
use crate::json::{
    completion_text, extract_completion_text, extract_user_prompt, is_dynamic_request,
    is_mcp_or_tool_request, json_of, parse_json, user_prompt,
};
use crate::metrics::{advanced, GatewayMetrics};
use crate::net::{IpAddress, IpNet};
use crate::request::{header_text, RequestParts};
use crate::signature::{
    base64_encode, ed25519_signature, sign_request, signed_text, GatewaySigningKey,
};
use crate::routing::{
    client_key, find_route, get_client_ip, is_first_match, no_route_matches, target_path_for,
    target_url_for, upstream_path, upstream_url,
};

verus! {

broadcast use vstd::string::group_string_axioms;

/// The largest request body the gateway reads, in bytes (10 MiB).
pub const MAX_BODY_BYTES: usize = 10485760;

/// A request as it reached the gateway: its parts and the peer it came from.
pub struct ProxyRequest {
    pub parts: RequestParts,
    /// The address of the peer that opened the connection.
    pub peer: IpAddress,
    /// That address as text.
    pub peer_text: String,
}

/// What the pipeline needs to know of the gateway's configuration.
pub struct ProxySettings {
    pub routes: Vec<RouteConfig>,
    pub trusted_proxies: Vec<IpNet>,
    pub filter: FastRejectFilter,
    /// A semantic cache is available for routes that ask for one.
    pub ai_cache_enabled: bool,
    /// The key every forwarded request is signed with.
    pub signing_key: GatewaySigningKey,
}

/// How a reply relates to the semantic cache.
pub enum CacheMark {
    /// Not a chat reply.
    NotAi,
    /// A chat reply served from the cache (`X-Cache: HIT`, JSON content type).
    Hit,
    /// A chat reply obtained upstream (`X-Cache: MISS`, JSON content type).
    Miss,
}

/// The body of a reply.
pub enum ReplyBody {
    Empty,
    Text(String),
    Bytes(Vec<u8>),
}

/// A reply the gateway sends itself.
pub struct Reply {
    pub status: u16,
    pub body: ReplyBody,
    pub cache: CacheMark,
}

/// Where the handling of one request stands.
#[allow(inconsistent_fields)]
pub enum ProxyStage {
    /// Nothing decided yet.
    Received,
    /// Waiting for the rate limiter's verdict on the client.
    CheckingRate { route: usize },
    /// Waiting for the verdict on the client's bearer token.
    CheckingToken { route: usize },
    /// Waiting for the request body.
    ReadingBody { route: usize, token_verified: bool },
    /// Waiting for the upstream reply to a signed, forwarded request.
    Forwarding,
    /// Waiting for the streamed reply to be assembled.
    Assembling,
    /// Waiting for the semantic cache to answer `prompt`; on a miss the body
    /// goes to `target_url`, signed for `signed_path`.
    LookingUp { prompt: String, target_url: String, signed_path: String, body: Vec<u8> },
    /// Waiting for the upstream reply to a chat request.
    ForwardingAi { prompt: Option<String> },
    /// Waiting for the body of the upstream reply to a chat request.
    ReadingAnswer { status: u16, prompt: Option<String> },
    /// Waiting for the answer to be stored in the semantic cache.
    Storing { status: u16, answer: Vec<u8> },
    /// The request has been answered.
    Finished,
}

/// The outcome of the outside work the pipeline asked for.
pub enum ProxyEvent {
    /// The request arrived.
    Arrived,
    /// The rate limiter allowed (`true`) or refused the client.
    RateChecked(bool),
    /// The bearer token was (`true`) or was not valid.
    TokenChecked(bool),
    /// The body, or `None` when it could not be read.
    BodyRead(Option<Vec<u8>>),
    /// The upstream status, or the error text of a failed exchange.
    UpstreamReplied(Result<u16, String>),
    /// The streamed reply was (`true`) or could not be assembled.
    ResponseBuilt(bool),
    /// The cached answer to the prompt, if any.
    CacheAnswered(Option<String>),
    /// The upstream reply body, or the error text of a failed read.
    UpstreamBodyRead(Result<Vec<u8>, String>),
    /// The answer was stored in the semantic cache.
    CacheStored,
}

/// The outside work the pipeline asks for next, or the reply.
#[allow(inconsistent_fields)]
pub enum ProxyAction {
    /// Send this reply; the request is answered.
    Respond(Reply),
    /// Ask the rate limiter about the client known by this key, with the
    /// route's own budget (`(max_requests, per_seconds)`) or, when `None`,
    /// the gateway's default one.
    CheckRateLimit { client_key: String, limit: Option<(u64, u64)> },
    /// Verify this bearer token.
    VerifyToken { token: String },
    /// Read the request body, up to `limit` bytes.
    ReadBody { limit: usize },
    /// Send the request with its headers, except `Host`, and `body` to
    /// `target_url`, with the signature header and the timestamp it signs.
    ForwardSigned { target_url: String, signature: String, timestamp: String, body: Vec<u8> },
    /// Stream the upstream reply, with its status and headers, to the client.
    BuildResponse { status: u16 },
    /// Ask the semantic cache for an answer to this prompt.
    LookupCache { prompt: String },
    /// Read the body of the upstream reply.
    ReadUpstreamBody,
    /// Store this answer to this prompt in the semantic cache.
    StoreInCache { prompt: String, answer: String },
    /// The assembled upstream reply is the answer.
    Done,
    /// The event does not fit the stage; nothing changed.
    Unexpected,
}

/// The reply is a plain-text reply with this status and text.
pub open spec fn is_text_reply(a: ProxyAction, status: u16, text: Seq<char>) -> bool {
    a matches ProxyAction::Respond(r) && r.status == status && r.cache is NotAi && (
    r.body matches ReplyBody::Text(t) && t@ == text)
}

/// The reply has this status and no body.
pub open spec fn is_empty_reply(a: ProxyAction, status: u16) -> bool {
    a matches ProxyAction::Respond(r) && r.status == status && r.cache is NotAi && r.body is Empty
}

/// The reply is a chat reply obtained upstream, with this status and body.
pub open spec fn is_miss_reply(a: ProxyAction, status: u16, body: Seq<u8>) -> bool {
    a matches ProxyAction::Respond(r) && r.status == status && r.cache is Miss && (
    r.body matches ReplyBody::Bytes(b) && b@ == body)
}

/// The status line is a success (2xx).
pub open spec fn is_success(status: u16) -> bool {
    200 <= status <= 299
}

/// The text of the reply to an unknown route.
pub open spec fn no_route_text() -> Seq<char> {
    "Không tìm thấy đường dẫn cấu hình tại Gateway"@
}

/// The characters of an optional string.
pub open spec fn query_view(q: Option<String>) -> Option<Seq<char>> {
    match q {
        Some(s) => Some(s@),
        None => None,
    }
}

/// The path that is signed for a forwarded request: the upstream path, with
/// `?` and the query when the request has one.
pub open spec fn signed_path(target_path: Seq<char>, query: Option<Seq<char>>) -> Seq<char> {
    match query {
        Some(q) => target_path + "?"@ + q,
        None => target_path,
    }
}

/// The key the rate limiter knows a client by on a route: the route path,
/// `:`, and the client's key.
pub open spec fn rate_key(route_path: Seq<char>, client: Seq<char>) -> Seq<char> {
    route_path + ":"@ + client
}

/// The route's own request budget, as `(max_requests, per_seconds)`.
pub open spec fn rate_limit_of(r: RouteConfig) -> Option<(u64, u64)> {
    match r.rate_limit {
        Some(l) => Some((l.max_requests, l.per_seconds)),
        None => None,
    }
}

/// The answer text in an upstream chat answer, when the bytes are JSON and
/// hold one (see `completion_text`).
pub open spec fn answer_text(bytes: Seq<u8>) -> Option<Seq<char>> {
    match json_of(bytes) {
        Some(j) => completion_text(j),
        None => None,
    }
}

/// The action sends `body` to `url`, with a signature under `key` of the
/// signed text of `method`, `path`, the timestamp it carries and `body`.
pub open spec fn is_signed_forward(
    a: ProxyAction,
    key: GatewaySigningKey,
    method: Seq<char>,
    path: Seq<char>,
    url: Seq<char>,
    body: Seq<u8>,
) -> bool {
    a matches ProxyAction::ForwardSigned { target_url, signature, timestamp, body: sent } && {
        &&& target_url@ == url
        &&& sent@ == body
        &&& signature@ == base64_encode(
            ed25519_signature(key.document(), encode_utf8(signed_text(method, path, timestamp@, body))),
        )
    }
}

/// The request is signed and forwarded and the pipeline goes on at `next`,
/// with the counters moved by the cache miss (`miss`) only; or, when the
/// clock cannot be read as a timestamp, it is answered 500 and an error is
/// counted too.
pub open spec fn forwards_signed(
    a: ProxyAction,
    s1: ProxyStage,
    next: ProxyStage,
    m0: GatewayMetrics,
    m1: GatewayMetrics,
    miss: bool,
    key: GatewaySigningKey,
    method: Seq<char>,
    path: Seq<char>,
    url: Seq<char>,
    body: Seq<u8>,
) -> bool {
    ||| advanced(m0, m1, false, false, false, miss) && s1 == next && is_signed_forward(
        a,
        key,
        method,
        path,
        url,
        body,
    )
    ||| advanced(m0, m1, false, true, false, miss) && s1 is Finished && is_empty_reply(a, 500)
}

impl ProxyStage {
    /// How far the stage is from the end; every expected event lowers it.
    pub open spec fn rank(self) -> nat {
        match self {
            ProxyStage::Received => 9,
            ProxyStage::CheckingRate { .. } => 8,
            ProxyStage::CheckingToken { .. } => 7,
            ProxyStage::ReadingBody { .. } => 6,
            ProxyStage::LookingUp { .. } => 5,
            ProxyStage::ForwardingAi { .. } => 4,
            ProxyStage::ReadingAnswer { .. } => 3,
            ProxyStage::Forwarding => 2,
            ProxyStage::Assembling => 1,
            ProxyStage::Storing { .. } => 1,
            ProxyStage::Finished => 0,
        }
    }

    /// The route of the stage exists, and a body is read for a route that
    /// requires authentication only after its token was verified.
    pub open spec fn well_formed(self, routes: Seq<RouteConfig>) -> bool {
        match self {
            ProxyStage::CheckingRate { route } => route < routes.len(),
            ProxyStage::CheckingToken { route } => route < routes.len() && routes[route as int].auth_required,
            ProxyStage::ReadingBody { route, token_verified } => route < routes.len() && (
            routes[route as int].auth_required ==> token_verified),
            _ => true,
        }
    }

    /// The stage in which a request starts.
    pub fn new() -> (s: ProxyStage)
        ensures
            s is Received,
    {
        ProxyStage::Received
    }

    /// Decides what follows `event` in the current stage.
    ///
    /// * `Arrived` (when `Received`): counts the request; a request the filter
    ///   turns away (a blacklisted client among the reasons) gets 400 with the
    ///   reason, one that no route serves gets 404; else the rate limiter is
    ///   asked about the client on the first route that serves the path.
    /// * `RateChecked`: a refused client gets 429; a route that requires
    ///   authentication needs a bearer token (none: 401) which is then
    ///   verified; else the body is read.
    /// * `TokenChecked`: an invalid token gets 401; else the body is read.
    /// * `BodyRead`: an unreadable body gets 400; a chat route with the
    ///   semantic cache available goes the chat way; else the request is
    ///   signed and forwarded, and the upstream reply streamed back (502 or
    ///   500 when that fails).
    /// * The chat way: a body that is not JSON gets 400; a request with tools
    ///   or a JSON-RPC call is signed and goes upstream as is; else its prompt
    ///   (none: 400) is looked up in the cache: a hit is answered from it, a
    ///   miss is signed and goes upstream. The upstream reply is returned (502
    ///   when the exchange or the read fails); the answer text of a successful
    ///   reply to a prompt is stored in the cache.
    /// * Every reply the gateway writes itself with an error status is counted
    ///   as an error.
    pub fn step(
        &mut self,
        request: &ProxyRequest,
        settings: &ProxySettings,
        metrics: &mut GatewayMetrics,
        event: ProxyEvent,
    ) -> (action: ProxyAction)
        requires
            old(self).well_formed(settings.routes@),
        ensures
            final(self).well_formed(settings.routes@),
            action is Unexpected ==> *final(self) == *old(self) && advanced(
                *old(metrics),
                *final(metrics),
                false,
                false,
                false,
                false,
            ),
            !(action is Unexpected) ==> final(self).rank() < old(self).rank(),
            action is Respond || action is Done <==> !(action is Unexpected) && *final(self) is Finished,
            action matches ProxyAction::Respond(r) ==> (r.cache is NotAi ==> r.status >= 400
                && final(metrics).total_errors == old(metrics).total_errors.wrapping_add(1)),
            match (*old(self), event) {
                (ProxyStage::Received, ProxyEvent::Arrived) => {
                    let req = request.parts;
                    let routes = settings.routes@;
                    let client = client_key(
                        request.peer,
                        request.peer_text@,
                        req.headers@,
                        settings.trusted_proxies@,
                    );
                    match settings.filter.screen_from(req, client) {
                        Some(rej) => advanced(*old(metrics), *final(metrics), true, true, false, false)
                            && is_text_reply(action, 400, rejection_message(rej)),
                        None => if no_route_matches(routes, req.path@) {
                            advanced(*old(metrics), *final(metrics), true, true, false, false)
                                && is_text_reply(action, 404, no_route_text())
                        } else {
                            &&& advanced(*old(metrics), *final(metrics), true, false, false, false)
                            &&& *final(self) matches ProxyStage::CheckingRate { route }
                                && is_first_match(routes, req.path@, route as int) && (
                            action matches ProxyAction::CheckRateLimit { client_key: k, limit }
                                && k@ == rate_key(routes[route as int].path@, client) && limit
                                == rate_limit_of(routes[route as int]))
                        },
                    }
                },
                (ProxyStage::CheckingRate { route }, ProxyEvent::RateChecked(allowed)) => {
                    let r = settings.routes@[route as int];
                    let auth = header_text(request.parts.headers@, "authorization"@);
                    if !allowed {
                        advanced(*old(metrics), *final(metrics), false, true, false, false)
                            && is_text_reply(action, 429, "Too Many Requests"@)
                    } else if r.auth_required {
                        match action {
                            ProxyAction::VerifyToken { token } => advanced(
                                *old(metrics),
                                *final(metrics),
                                false,
                                false,
                                false,
                                false,
                            ) && *final(self) == ProxyStage::CheckingToken { route } && (auth matches Some(
                                text,
                            ) && is_bearer_form(text, token@)),
                            _ => advanced(*old(metrics), *final(metrics), false, true, false, false)
                                && is_empty_reply(action, 401) && (auth matches Some(text) ==> forall|
                                t: Seq<char>,
                            | !is_bearer_form(text, t)),
                        }
                    } else {
                        advanced(*old(metrics), *final(metrics), false, false, false, false)
                            && *final(self) == ProxyStage::ReadingBody { route, token_verified: false }
                            && action == ProxyAction::ReadBody { limit: MAX_BODY_BYTES }
                    }
                },
                (ProxyStage::CheckingToken { route }, ProxyEvent::TokenChecked(valid)) => if valid {
                    advanced(*old(metrics), *final(metrics), false, false, false, false)
                        && *final(self) == ProxyStage::ReadingBody { route, token_verified: true } && action
                        == ProxyAction::ReadBody { limit: MAX_BODY_BYTES }
                } else {
                    advanced(*old(metrics), *final(metrics), false, true, false, false)
                        && is_empty_reply(action, 401)
                },
                (ProxyStage::ReadingBody { route, .. }, ProxyEvent::BodyRead(body)) => {
                    let r = settings.routes@[route as int];
                    let path = upstream_path(r.path@, r.strip_prefix, request.parts.path@);
                    let query = query_view(request.parts.query);
                    let url = upstream_url(r.target@, path, query);
                    let signed = signed_path(path, query);
                    let key = settings.signing_key;
                    let method = request.parts.method@;
                    match body {
                        None => advanced(*old(metrics), *final(metrics), false, true, false, false)
                            && is_text_reply(action, 400, "Không thể đọc request body"@),
                        Some(b) => if r.ai_caching == Some(true) && settings.ai_cache_enabled {
                            match json_of(b@) {
                                None => advanced(*old(metrics), *final(metrics), false, true, false, false)
                                    && is_text_reply(action, 400, "Invalid JSON body"@),
                                Some(j) => if is_dynamic_request(j) {
                                    forwards_signed(
                                        action,
                                        *final(self),
                                        ProxyStage::ForwardingAi { prompt: None },
                                        *old(metrics),
                                        *final(metrics),
                                        false,
                                        key,
                                        method,
                                        signed,
                                        url,
                                        b@,
                                    )
                                } else {
                                    match user_prompt(j) {
                                        None => advanced(
                                            *old(metrics),
                                            *final(metrics),
                                            false,
                                            true,
                                            false,
                                            false,
                                        ) && is_text_reply(action, 400, "Missing user prompt in messages"@),
                                        Some(p) => advanced(
                                            *old(metrics),
                                            *final(metrics),
                                            false,
                                            false,
                                            false,
                                            false,
                                        ) && (*final(self) matches ProxyStage::LookingUp {
                                            prompt,
                                            target_url,
                                            signed_path: sp,
                                            body: kept,
                                        } && prompt@ == p && target_url@ == url && sp@ == signed
                                            && kept@ == b@) && (action matches ProxyAction::LookupCache {
                                            prompt,
                                        } && prompt@ == p),
                                    }
                                },
                            }
                        } else {
                            forwards_signed(
                                action,
                                *final(self),
                                ProxyStage::Forwarding,
                                *old(metrics),
                                *final(metrics),
                                false,
                                key,
                                method,
                                signed,
                                url,
                                b@,
                            )
                        },
                    }
                },
                (ProxyStage::Forwarding, ProxyEvent::UpstreamReplied(outcome)) => match outcome {
                    Ok(status) => advanced(*old(metrics), *final(metrics), false, false, false, false)
                        && *final(self) is Assembling && action == ProxyAction::BuildResponse { status },
                    Err(e) => advanced(*old(metrics), *final(metrics), false, true, false, false)
                        && is_text_reply(action, 502, "Lỗi kết nối upstream: "@ + e@),
                },
                (ProxyStage::Assembling, ProxyEvent::ResponseBuilt(built)) => if built {
                    advanced(*old(metrics), *final(metrics), false, false, false, false) && action is Done
                } else {
                    advanced(*old(metrics), *final(metrics), false, true, false, false)
                        && is_text_reply(action, 500, "Lỗi hệ thống khi xây dựng response"@)
                },
                (
                    ProxyStage::LookingUp { prompt, target_url, signed_path, body },
                    ProxyEvent::CacheAnswered(cached),
                ) => match cached {
                    Some(c) => advanced(*old(metrics), *final(metrics), false, false, true, false) && (
                    action matches ProxyAction::Respond(r) && r.status == 200 && r.cache is Hit && (
                    r.body matches ReplyBody::Text(t) && t@ == c@)),
                    None => forwards_signed(
                        action,
                        *final(self),
                        ProxyStage::ForwardingAi { prompt: Some(prompt) },
                        *old(metrics),
                        *final(metrics),
                        true,
                        settings.signing_key,
                        request.parts.method@,
                        signed_path@,
                        target_url@,
                        body@,
                    ),
                },
                (ProxyStage::ForwardingAi { prompt }, ProxyEvent::UpstreamReplied(outcome)) => match outcome {
                    Ok(status) => advanced(*old(metrics), *final(metrics), false, false, false, false)
                        && *final(self) == ProxyStage::ReadingAnswer { status, prompt }
                        && action is ReadUpstreamBody,
                    Err(e) => advanced(*old(metrics), *final(metrics), false, true, false, false)
                        && is_text_reply(action, 502, "Lỗi kết nối upstream: "@ + e@),
                },
                (
                    ProxyStage::ReadingAnswer { status, prompt },
                    ProxyEvent::UpstreamBodyRead(outcome),
                ) => match outcome {
                    Err(e) => advanced(*old(metrics), *final(metrics), false, true, false, false)
                        && is_text_reply(action, 502, "Lỗi đọc response từ upstream: "@ + e@),
                    Ok(bytes) => advanced(*old(metrics), *final(metrics), false, false, false, false)
                        && if is_success(status) && prompt is Some && answer_text(bytes@) is Some {
                        (*final(self) matches ProxyStage::Storing { status: s, answer }
                            && s == status && answer@ == bytes@) && (
                        action matches ProxyAction::StoreInCache { prompt: p, answer: t }
                            && p@ == prompt.unwrap()@ && t@ == answer_text(bytes@).unwrap())
                    } else {
                        is_miss_reply(action, status, bytes@)
                    },
                },
                (ProxyStage::Storing { status, answer }, ProxyEvent::CacheStored) => advanced(
                    *old(metrics),
                    *final(metrics),
                    false,
                    false,
                    false,
                    false,
                ) && is_miss_reply(action, status, answer@),
                _ => action is Unexpected,
            },
    {
        let mut stage = ProxyStage::Finished;
        std::mem::swap(&mut stage, self);
        match (stage, event) {
            (ProxyStage::Received, ProxyEvent::Arrived) => {
                metrics.record_request();
                let client = get_client_ip(
                    &request.peer,
                    request.peer_text.as_str(),
                    &request.parts.headers,
                    &settings.trusted_proxies,
                );
                match settings.filter.check_request_from(&request.parts, client.as_str()) {
                    Err(rej) => {
                        metrics.record_error();
                        text_reply(400, rej.to_string())
                    },
                    Ok(()) => match find_route(&settings.routes, request.parts.path.as_str()) {
                        None => {
                            metrics.record_error();
                            text_reply(
                                404,
                                String::from_str("Không tìm thấy đường dẫn cấu hình tại Gateway"),
                            )
                        },
                        Some(route) => {
                            let r = &settings.routes[route];
                            let mut key = String::from_str(r.path.as_str());
                            key.append(":");
                            key.append(client.as_str());
                            let limit = match &r.rate_limit {
                                Some(l) => Some((l.max_requests, l.per_seconds)),
                                None => None,
                            };
                            *self = ProxyStage::CheckingRate { route };
                            ProxyAction::CheckRateLimit { client_key: key, limit }
                        },
                    },
                }
            },
            (ProxyStage::CheckingRate { route }, ProxyEvent::RateChecked(allowed)) => {
                if !allowed {
                    metrics.record_error();
                    text_reply(429, String::from_str("Too Many Requests"))
                } else if settings.routes[route].auth_required {
                    match extract_token_from_header(&request.parts.headers) {
                        None => {
                            metrics.record_error();
                            empty_reply(401)
                        },
                        Some(token) => {
                            *self = ProxyStage::CheckingToken { route };
                            ProxyAction::VerifyToken { token }
                        },
                    }
                } else {
                    *self = ProxyStage::ReadingBody { route, token_verified: false };
                    ProxyAction::ReadBody { limit: MAX_BODY_BYTES }
                }
            },
            (ProxyStage::CheckingToken { route }, ProxyEvent::TokenChecked(valid)) => {
                if valid {
                    *self = ProxyStage::ReadingBody { route, token_verified: true };
                    ProxyAction::ReadBody { limit: MAX_BODY_BYTES }
                } else {
                    metrics.record_error();
                    empty_reply(401)
                }
            },
            (ProxyStage::ReadingBody { route, .. }, ProxyEvent::BodyRead(body)) => {
                match body {
                    None => {
                        metrics.record_error();
                        text_reply(400, String::from_str("Không thể đọc request body"))
                    },
                    Some(b) => {
                        let r = &settings.routes[route];
                        let path = target_path_for(r, request.parts.path.as_str());
                        let query = match &request.parts.query {
                            Some(q) => Some(q.as_str()),
                            None => None,
                        };
                        let url = target_url_for(r.target.as_str(), path.as_str(), query);
                        let signed = path_with_query(path.as_str(), query);
                        let ai = match r.ai_caching {
                            Some(flag) => flag,
                            None => false,
                        };
                        let method = request.parts.method.as_str();
                        if ai && settings.ai_cache_enabled {
                            match parse_json(b.as_slice()) {
                                None => {
                                    metrics.record_error();
                                    text_reply(400, String::from_str("Invalid JSON body"))
                                },
                                Some(j) => {
                                    if is_mcp_or_tool_request(&j) {
                                        let (a, next) = forward_or_fail(
                                            &settings.signing_key,
                                            metrics,
                                            ProxyStage::ForwardingAi { prompt: None },
                                            method,
                                            signed.as_str(),
                                            url,
                                            b,
                                        );
                                        *self = next;
                                        a
                                    } else {
                                        match extract_user_prompt(&j) {
                                            None => {
                                                metrics.record_error();
                                                text_reply(
                                                    400,
                                                    String::from_str("Missing user prompt in messages"),
                                                )
                                            },
                                            Some(p) => {
                                                let asked = p.clone();
                                                *self = ProxyStage::LookingUp {
                                                    prompt: p,
                                                    target_url: url,
                                                    signed_path: signed,
                                                    body: b,
                                                };
                                                ProxyAction::LookupCache { prompt: asked }
                                            },
                                        }
                                    }
                                },
                            }
                        } else {
                            let (a, next) = forward_or_fail(
                                &settings.signing_key,
                                metrics,
                                ProxyStage::Forwarding,
                                method,
                                signed.as_str(),
                                url,
                                b,
                            );
                            *self = next;
                            a
                        }
                    },
                }
            },
            (ProxyStage::Forwarding, ProxyEvent::UpstreamReplied(outcome)) => {
                match outcome {
                    Ok(status) => {
                        *self = ProxyStage::Assembling;
                        ProxyAction::BuildResponse { status }
                    },
                    Err(e) => {
                        metrics.record_error();
                        text_reply(502, prefixed("Lỗi kết nối upstream: ", e.as_str()))
                    },
                }
            },
            (ProxyStage::Assembling, ProxyEvent::ResponseBuilt(built)) => {
                if built {
                    ProxyAction::Done
                } else {
                    metrics.record_error();
                    text_reply(500, String::from_str("Lỗi hệ thống khi xây dựng response"))
                }
            },
            (
                ProxyStage::LookingUp { prompt, target_url, signed_path, body },
                ProxyEvent::CacheAnswered(cached),
            ) => {
                match cached {
                    Some(c) => {
                        metrics.record_cache_hit();
                        ProxyAction::Respond(
                            Reply { status: 200, body: ReplyBody::Text(c), cache: CacheMark::Hit },
                        )
                    },
                    None => {
                        metrics.record_cache_miss();
                        let (a, next) = forward_or_fail(
                            &settings.signing_key,
                            metrics,
                            ProxyStage::ForwardingAi { prompt: Some(prompt) },
                            request.parts.method.as_str(),
                            signed_path.as_str(),
                            target_url,
                            body,
                        );
                        *self = next;
                        a
                    },
                }
            },
            (ProxyStage::ForwardingAi { prompt }, ProxyEvent::UpstreamReplied(outcome)) => {
                match outcome {
                    Ok(status) => {
                        *self = ProxyStage::ReadingAnswer { status, prompt };
                        ProxyAction::ReadUpstreamBody
                    },
                    Err(e) => {
                        metrics.record_error();
                        text_reply(502, prefixed("Lỗi kết nối upstream: ", e.as_str()))
                    },
                }
            },
            (ProxyStage::ReadingAnswer { status, prompt }, ProxyEvent::UpstreamBodyRead(outcome)) => {
                match outcome {
                    Err(e) => {
                        metrics.record_error();
                        text_reply(502, prefixed("Lỗi đọc response từ upstream: ", e.as_str()))
                    },
                    Ok(bytes) => {
                        if 200 <= status && status <= 299 && prompt.is_some() {
                            let text = match parse_json(bytes.as_slice()) {
                                Some(j) => extract_completion_text(&j),
                                None => None,
                            };
                            match (text, prompt) {
                                (Some(t), Some(p)) => {
                                    *self = ProxyStage::Storing { status, answer: bytes };
                                    ProxyAction::StoreInCache { prompt: p, answer: t }
                                },
                                _ => miss_reply(status, bytes),
                            }
                        } else {
                            miss_reply(status, bytes)
                        }
                    },
                }
            },
            (ProxyStage::Storing { status, answer }, ProxyEvent::CacheStored) => {
                miss_reply(status, answer)
            },
            (other, _) => {
                *self = other;
                ProxyAction::Unexpected
            },
        }
    }
}

/// Signs the request for `path` and forwards `body` to `target_url`, the
/// pipeline going on at `next`; when the clock cannot be read as a
/// timestamp, a 500 reply, counted as an error.
fn forward_or_fail(
    key: &GatewaySigningKey,
    metrics: &mut GatewayMetrics,
    next: ProxyStage,
    method: &str,
    path: &str,
    target_url: String,
    body: Vec<u8>,
) -> (r: (ProxyAction, ProxyStage))
    ensures
        forwards_signed(
            r.0,
            r.1,
            next,
            *old(metrics),
            *final(metrics),
            false,
            *key,
            method@,
            path@,
            target_url@,
            body@,
        ),
{
    match sign_request(key, method, path, body.as_slice()) {
        Some((signature, timestamp)) => (
            ProxyAction::ForwardSigned { target_url, signature, timestamp, body },
            next,
        ),
        None => {
            metrics.record_error();
            (empty_reply(500), ProxyStage::Finished)
        },
    }
}

/// The path that is signed for a forwarded request (see `signed_path`).
pub fn path_with_query(path: &str, query: Option<&str>) -> (r: String)
    ensures
        r@ == signed_path(
            path@,
            match query {
                Some(q) => Some(q@),
                None => None,
            },
        ),
{
    let mut s = String::from_str(path);
    match query {
        Some(q) => {
            s.append("?");
            s.append(q);
        },
        None => {},
    }
    s
}

/// Whether a request header travels on to the upstream service: every header
/// but `Host`, which the upstream connection sets itself.
pub fn is_forwarded_header(name: &str) -> (r: bool)
    ensures
        r == (name@ != "host"@),
{
    !crate::text::str_eq(name, "host")
}

/// A reply with this status and no body.
fn empty_reply(status: u16) -> (a: ProxyAction)
    ensures
        is_empty_reply(a, status),
{
    ProxyAction::Respond(Reply { status, body: ReplyBody::Empty, cache: CacheMark::NotAi })
}

/// A plain-text reply.
fn text_reply(status: u16, text: String) -> (a: ProxyAction)
    ensures
        is_text_reply(a, status, text@),
{
    ProxyAction::Respond(Reply { status, body: ReplyBody::Text(text), cache: CacheMark::NotAi })
}

/// A chat reply obtained upstream.
fn miss_reply(status: u16, body: Vec<u8>) -> (a: ProxyAction)
    ensures
        is_miss_reply(a, status, body@),
{
    ProxyAction::Respond(Reply { status, body: ReplyBody::Bytes(body), cache: CacheMark::Miss })
}

/// `head` followed by `tail`.
fn prefixed(head: &str, tail: &str) -> (s: String)
    ensures
        s@ == head@ + tail@,
{
    let mut s = String::from_str(head);
    s.append(tail);
    s
}

/// In every stage the pipeline keeps, the body of a request to a route that
/// requires authentication is read only once its token was verified.
pub proof fn law_protected_body_needs_verified_token(
    stage: ProxyStage,
    routes: Seq<RouteConfig>,
    route: usize,
    token_verified: bool,
)
    requires
        stage.well_formed(routes),
        stage == (ProxyStage::ReadingBody { route, token_verified }),
        routes[route as int].auth_required,
    ensures
        token_verified,
{
}

} // verus!
