# zero_trust_gateway

A zero-trust API gateway whose decisions are verified with Verus.

- `src/` is the verified library:
  - `fast_reject` screens each request (client blacklist, URI length,
    method, `Host` or authority, header count, declared body size, blocked
    paths compared after normalisation);
  - `auth` reads `Authorization: Bearer <token>` headers (scheme in any case);
  - `routing` picks the route (matching at path-segment boundaries), builds
    the upstream path and URL, and decides which address a client is known
    by (trusted proxies only);
  - `signature` builds and signs the text that upstream services check
    (Ed25519 over method, path with query, timestamp and body digest);
  - `proxy` is the request pipeline as a state machine: the HTTP server feeds
    it the outcome of each piece of outside work and performs what it asks,
    and every forwarded request, chat requests included, is signed;
  - `metrics`, `json`, `dashboard`, `ai_engine`, `net`, `request`, `text`
    hold counters, JSON reading, dashboard asset naming, model input
    preparation, IP networks, the request model and string helpers.
- `app/` is the program around it: configuration loading, the axum server,
  outgoing HTTP calls, JWT verification, the token-bucket and Redis rate
  limiters, the ONNX embedding model and the semantic cache.
- `tests/` exercises the library on concrete requests.

Run `cargo run -- keygen` to create `certs/gateway_private.pk8`.
