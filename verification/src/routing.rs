//! Route selection, upstream addresses, and who the client is.

use vstd::prelude::*;
use crate::config::RouteConfig;
use crate::net::{any_contains, some_network_holds, IpAddress, IpNet};
use crate::request::{find_header_text, header_text, HeaderField};
use crate::text::{
    law_before_char_is_first_piece, before_char, chars_of, chars_start_with, is_prefix, prefix_before, starts_with, str_eq,
    string_from_range,
};

verus! {

broadcast use vstd::string::group_string_axioms;

/// A route with path `route_path` serves `path`: the two are equal, or `path`
/// continues the route path (without its trailing slashes) with a `/`.
pub open spec fn route_matches(route_path: Seq<char>, path: Seq<char>) -> bool {
    path == route_path || is_prefix(strip_trailing(route_path, '/') + seq!['/'], path)
}

/// Route `i` is the first route that serves `path`.
pub open spec fn is_first_match(routes: Seq<RouteConfig>, path: Seq<char>, i: int) -> bool {
    &&& 0 <= i < routes.len()
    &&& route_matches(routes[i].path@, path)
    &&& forall|j: int| 0 <= j < i ==> !route_matches(#[trigger] routes[j].path@, path)
}

/// No route serves `path`.
pub open spec fn no_route_matches(routes: Seq<RouteConfig>, path: Seq<char>) -> bool {
    forall|j: int| 0 <= j < routes.len() ==> !route_matches(#[trigger] routes[j].path@, path)
}

/// `s` without its trailing `c` characters.
pub open spec fn strip_trailing(s: Seq<char>, c: char) -> Seq<char>
    decreases s.len(),
{
    if s.len() > 0 && s.last() == c {
        strip_trailing(s.drop_last(), c)
    } else {
        s
    }
}

/// The path sent upstream: the request path, without the route prefix when
/// the route strips it, with a leading `/` added when missing.
pub open spec fn upstream_path(route_path: Seq<char>, strip_prefix: bool, path: Seq<char>) -> Seq<
    char,
> {
    let t = if strip_prefix && is_prefix(route_path, path) {
        path.skip(route_path.len() as int)
    } else {
        path
    };
    if t.len() > 0 && t[0] == '/' {
        t
    } else {
        seq!['/'] + t
    }
}

/// The upstream URL: the target without trailing slashes, the upstream path,
/// and `?query` when the request has a query.
pub open spec fn upstream_url(target: Seq<char>, target_path: Seq<char>, query: Option<Seq<char>>) -> Seq<
    char,
> {
    let base = strip_trailing(target, '/') + target_path;
    match query {
        Some(q) => base + "?"@ + q,
        None => base,
    }
}

/// The key the client is known by: the first entry of `X-Forwarded-For` when
/// the peer is a trusted proxy and the header reads as text, else the peer's
/// own address text.
pub open spec fn client_key(
    peer: IpAddress,
    peer_text: Seq<char>,
    headers: Seq<HeaderField>,
    trusted: Seq<IpNet>,
) -> Seq<char> {
    if some_network_holds(trusted, peer) {
        match header_text(headers, "x-forwarded-for"@) {
            Some(t) => before_char(t, ','),
            None => peer_text,
        }
    } else {
        peer_text
    }
}

/// The length of `v` without its trailing `c` characters.
fn stripped_len(v: &Vec<char>, c: char) -> (b: usize)
    ensures
        b <= v.len(),
        strip_trailing(v@, c) == v@.take(b as int),
{
    let mut b: usize = v.len();
    while b > 0 && v[b - 1] == c
        invariant
            b <= v.len(),
            forall|j: int| b <= j < v.len() ==> v@[j] == c,
        decreases b,
    {
        b = b - 1;
    }
    proof {
        lemma_strip_trailing_take(v@, c, b as int);
        if b > 0 {
            assert(v@.take(b as int).last() == v@[b - 1]);
        }
        assert(v@.take(b as int).take(b as int) =~= v@.take(b as int));
        lemma_strip_trailing_take(v@.take(b as int), c, b as int);
    }
    b
}

/// Whether a route with path `route_path` serves `path` (see `route_matches`).
pub fn route_serves(route_path: &str, path: &str) -> (r: bool)
    ensures
        r == route_matches(route_path@, path@),
{
    if str_eq(path, route_path) {
        return true;
    }
    let vr = chars_of(route_path);
    let b = stripped_len(&vr, '/');
    let mut pre: Vec<char> = Vec::new();
    let mut i: usize = 0;
    while i < b
        invariant
            i <= b <= vr.len(),
            pre@ == vr@.take(i as int),
        decreases b - i,
    {
        pre.push(vr[i]);
        i = i + 1;
        assert(pre@ =~= vr@.take(i as int));
    }
    pre.push('/');
    assert(pre@ =~= strip_trailing(route_path@, '/') + seq!['/']);
    let vp = chars_of(path);
    chars_start_with(&vp, &pre)
}

/// The first route that serves `path`.
pub fn find_route(routes: &Vec<RouteConfig>, path: &str) -> (r: Option<usize>)
    ensures
        r matches Some(i) ==> is_first_match(routes@, path@, i as int),
        r is None ==> no_route_matches(routes@, path@),
{
    let mut i: usize = 0;
    while i < routes.len()
        invariant
            i <= routes.len(),
            forall|j: int| 0 <= j < i ==> !route_matches(#[trigger] routes@[j].path@, path@),
        decreases routes.len() - i,
    {
        if route_serves(routes[i].path.as_str(), path) {
            return Some(i);
        }
        i = i + 1;
    }
    None
}

/// The path sent upstream for a request to `path` on `route`.
pub fn target_path_for(route: &RouteConfig, path: &str) -> (r: String)
    ensures
        r@ == upstream_path(route.path@, route.strip_prefix, path@),
{
    let v = chars_of(path);
    let mut from: usize = 0;
    if route.strip_prefix && starts_with(path, route.path.as_str()) {
        from = chars_of(route.path.as_str()).len();
    }
    let t = string_from_range(&v, from, v.len());
    assert(t@ =~= (if route.strip_prefix && is_prefix(route.path@, path@) {
        path@.skip(route.path@.len() as int)
    } else {
        path@
    }));
    if from < v.len() {
        assert(t@[0] == v@[from as int]);
    }
    if from < v.len() && v[from] == '/' {
        t
    } else {
        let mut s = String::from_str("/");
        s.append(t.as_str());
        proof {
            reveal_strlit("/");
        }
        assert(s@ =~= seq!['/'] + t@);
        s
    }
}

proof fn lemma_strip_trailing_take(s: Seq<char>, c: char, b: int)
    requires
        0 <= b <= s.len(),
        forall|j: int| b <= j < s.len() ==> s[j] == c,
    ensures
        strip_trailing(s, c) == strip_trailing(s.take(b), c),
    decreases s.len() - b,
{
    if b == s.len() {
        assert(s.take(b) =~= s);
    } else {
        lemma_strip_trailing_take(s.drop_last(), c, b);
        assert(s.drop_last().take(b) =~= s.take(b));
    }
}

/// The upstream URL for `target`, the upstream path and the request query.
pub fn target_url_for(target: &str, target_path: &str, query: Option<&str>) -> (r: String)
    ensures
        r@ == upstream_url(
            target@,
            target_path@,
            match query {
                Some(q) => Some(q@),
                None => None,
            },
        ),
{
    let v = chars_of(target);
    let b = stripped_len(&v, '/');
    let mut s = string_from_range(&v, 0, b);
    assert(s@ =~= v@.take(b as int));
    s.append(target_path);
    match query {
        Some(q) => {
            s.append("?");
            s.append(q);
        },
        None => {},
    }
    s
}

/// The key the client is known by (see `client_key`); `peer_text` is the
/// peer address as text.
pub fn get_client_ip(
    peer: &IpAddress,
    peer_text: &str,
    headers: &Vec<HeaderField>,
    trusted_proxies: &Vec<IpNet>,
) -> (r: String)
    ensures
        r@ == client_key(*peer, peer_text@, headers@, trusted_proxies@),
{
    if any_contains(trusted_proxies, peer) {
        match find_header_text(headers, "x-forwarded-for") {
            Some(text) => prefix_before(&text, ','),
            None => String::from_str(peer_text),
        }
    } else {
        String::from_str(peer_text)
    }
}

/// The path sent upstream always starts with `/`.
pub proof fn law_upstream_path_is_absolute(route_path: Seq<char>, strip_prefix: bool, path: Seq<char>)
    ensures
        upstream_path(route_path, strip_prefix, path).len() > 0,
        upstream_path(route_path, strip_prefix, path)[0] == '/',
{
}

/// A route whose path does not end in `/` serves its own path and the paths
/// below it, nothing else: after the route path comes the end or a `/`.
pub proof fn law_route_match_at_segment_boundary(route_path: Seq<char>, path: Seq<char>)
    requires
        route_matches(route_path, path),
        route_path.len() > 0,
        route_path.last() != '/',
    ensures
        is_prefix(route_path, path),
        path.len() == route_path.len() || path[route_path.len() as int] == '/',
{
    let n = route_path.len() as int;
    assert(strip_trailing(route_path, '/') == route_path);
    if path != route_path {
        let pre = route_path + seq!['/'];
        assert(path.take(n + 1) == pre);
        assert(path[n] == path.take(n + 1)[n]);
        assert(path.take(n) =~= path.take(n + 1).take(n));
        assert(pre.take(n) =~= route_path);
    } else {
        assert(path.take(n) =~= path);
    }
}

/// A trusted proxy's client is known by the whole first entry of the
/// `X-Forwarded-For` header: a prefix of the header text with no `,` in it,
/// that is all of the text or is followed in it by `,`.
pub proof fn law_forwarded_client_is_whole_first_entry(
    peer: IpAddress,
    peer_text: Seq<char>,
    headers: Seq<HeaderField>,
    trusted: Seq<IpNet>,
    t: Seq<char>,
)
    requires
        some_network_holds(trusted, peer),
        header_text(headers, "x-forwarded-for"@) == Some(t),
    ensures
        is_prefix(client_key(peer, peer_text, headers, trusted), t),
        forall|i: int|
            0 <= i < client_key(peer, peer_text, headers, trusted).len() ==> client_key(
                peer,
                peer_text,
                headers,
                trusted,
            )[i] != ',',
        client_key(peer, peer_text, headers, trusted).len() == t.len() || t[client_key(
            peer,
            peer_text,
            headers,
            trusted,
        ).len() as int] == ',',
{
    law_before_char_is_first_piece(t, ',');
}

/// With the prefix stripped, the upstream path is the rest of the request
/// path, character for character, with a `/` put in front only when the rest
/// does not start with one; without stripping, it is the request path itself
/// (with a `/` in front when it has none).
pub proof fn law_upstream_path_keeps_request_characters(
    route_path: Seq<char>,
    rest: Seq<char>,
    path: Seq<char>,
)
    ensures
        upstream_path(route_path, true, route_path + rest) == rest || upstream_path(
            route_path,
            true,
            route_path + rest,
        ) == seq!['/'] + rest,
        rest.len() > 0 && rest[0] == '/' ==> upstream_path(route_path, true, route_path + rest) == rest,
        rest.len() == 0 || rest[0] != '/' ==> upstream_path(route_path, true, route_path + rest)
            == seq!['/'] + rest,
        path.len() > 0 && path[0] == '/' ==> upstream_path(route_path, false, path) == path,
        path.len() == 0 || path[0] != '/' ==> upstream_path(route_path, false, path) == seq!['/']
            + path,
{
    let p = route_path + rest;
    assert(p.take(route_path.len() as int) =~= route_path);
    assert(p.skip(route_path.len() as int) =~= rest);
}

/// A peer that is not a trusted proxy is known by its own address, whatever
/// `X-Forwarded-For` header it sends.
pub proof fn law_untrusted_peer_cannot_spoof(
    peer: IpAddress,
    peer_text: Seq<char>,
    headers: Seq<HeaderField>,
    trusted: Seq<IpNet>,
)
    requires
        !some_network_holds(trusted, peer),
    ensures
        client_key(peer, peer_text, headers, trusted) == peer_text,
{
}

} // verus!
