# true_track_proxy

A TLS-terminating reverse proxy built on pingora, whose decisions are
verified with Verus.

- `src/` is the verified library: the configuration types, the screening of
  requests (missing host, redirect to `https`, allowed hosts), the body-size
  limit, upstream route selection, the headers added upstream, the JSON
  answers, certificate name extraction from PEM files, certificate choice by
  server name (SNI) and ALPN protocol choice. `src/laws.rs` states and proves
  properties that span these functions.
- `app/` is the server program: reading the configuration file, logging,
  OpenSSL contexts built from files, pingora clusters and the HTTP hooks,
  which ask the library what to do and perform it.
- `tests/` exercises the library on concrete requests and certificates.
