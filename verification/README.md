# vless_vpn

The verified core of a VLESS + RAW + REALITY server.

- `src/reality` — REALITY client authentication: the short ID carried in the
  ClientHello SessionID, X25519 key agreement and HKDF-SHA256 key derivation,
  and the sniffing of the first TLS record (authenticated client or fallback).
- `src/vless` — the VLESS request header as a byte format: reading it, with the
  laws that a header a client writes is read back unchanged and that payload
  after it does not matter.
- `src/config.rs` — options, Railway variables and fresh random values resolved
  into a server configuration; the `vless://` share link, with the law that a
  reader splitting the link at its delimiters gets the configuration back
  whenever the SNI holds no `?`, `#` or `&`.
- `src/link.rs` — the query-string layout of share links and the reader.
- `src/server.rs` — shoes and Xray engine configurations, the choice of engine,
  the startup banner and the engine log filter.
- `src/address.rs`, `src/encoding.rs`, `src/text.rs` — text forms of IP and
  socket addresses, hexadecimal, Base64 and UUIDs, decimal numbers and trimming.
- `app/` — the program around the library: command-line parsing, the
  environment, sockets, processes and files.

Calls into `x25519-dalek`, `hkdf`/`sha2`, `subtle`, `hex`, `base64`, `uuid`,
`fastrand` and `qrcode` sit behind small trusted wrappers whose contracts state
what those crates document.
