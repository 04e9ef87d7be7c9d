# trojan-rust

A Trojan / Vision proxy server whose protocol core is verified with Verus.

## Layout

- `src/` — the verified library:
  - `protocol/` — the Trojan request header, target addresses, commands and
    the byte-level codec helpers, with decoders that work both on peeked
    buffers and field by field on streams;
  - `proxy/` — UDP-associate framing and the decisions of the UDP relay loop,
    and the prefixed stream that hands peeked payload back to the relay;
  - `reality/` — Vision authentication requests (encoding, integrity hash,
    clock window, password check), the connection state machine, the
    splice bookkeeping (a count tied to the reads it was counted from) and
    the certificate and key loading of the Vision server;
  - `server.rs` — the decision taken on the bytes peeked from a new
    connection: read on, proxy, fall back or drop;
  - `config.rs` — settings, defaults and their validation;
  - `tls.rs`, `pem.rs` — the certificate chain and private key loaded from
    PEM bytes, on the outcome of `rustls_pemfile`;
  - `crypto.rs`, `buffer.rs`, `text.rs` — the calls into `sha2`, `hex`,
    `bytes` and `std` that the library makes, with their contracts.
- `app/` — the executable around the library: command line, configuration
  file loading, TLS, sockets, the async relay loops that feed the library's
  step functions and carry out the actions they return.
- `tests/` — tests run against the compiled library.

## Main properties proved

- Every encoder has a matching decoder: a header, an address, a UDP frame
  and a Vision request decode back to what was encoded, whatever bytes
  follow, and stream decoders never ask for bytes past the message.
- The server proxies only a complete header whose password hash is
  configured, hands on exactly the bytes after it, and relays anything
  malformed or unauthenticated to the fallback; a header arriving in pieces
  is never sent to the fallback.
- A Vision request is accepted only when its integrity hash matches and its
  timestamp is within five minutes of the clock.
- A connection whose authentication fails never starts forwarding.
- A splice's count is exactly the bytes it forwarded to either stream.
