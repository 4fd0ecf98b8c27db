# Casper node proxy

A proxy in front of Casper nodes and sidecars: per-network JSON-RPC, event
streams over WebSocket and SSE, binary-port bridging and Prometheus metrics.

- `src/` is the library. It holds every decision of the proxy: which requests
  are forwarded, what clients are answered, how responses are rewritten, in
  which order events are sent, what is counted. Each function carries a
  contract that Verus proves; the laws that span several functions are public
  proof functions whose names start with `law_`.
- `app/` is the program around it: command line, sockets, database, Redis,
  timers and rate limiters. It performs what the library asks for and hands
  back what happened.
- `tests/` runs the library on concrete values with the real codecs.

## Modules

| Module | What it holds |
| --- | --- |
| `wire`, `payload`, `calltable` | the binary port's wire format, payload codecs and call tables |
| `request`, `response` | how binary requests are understood and responses rewritten |
| `binary_proxy` | the connection pool and the course of one binary request |
| `json`, `jsonrpc_proxy` | JSON values and the JSON-RPC proxy |
| `state`, `events`, `sse` | the event bus, streams to clients, the upstream listener |
| `handlers` | errors, links and binary websockets |
| `families`, `catalog`, `metrics` | metric families, those of the proxy, and its metrics |
| `config`, `db`, `models`, `rate_limit`, `text` | settings, rows, limits and text |

`Cargo.toml` names `casper-client`, which nothing here calls, to hold it to the
release that `veles-casper-rust-sdk` builds with: the next one brings another
major version of `casper-types`.

What the library takes on trust of other crates stands in items marked
`#[verifier::external_body]`; the comment above each says what is claimed.
