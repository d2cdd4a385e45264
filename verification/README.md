# cf_tunnel

A client for Cloudflare tunnels: it registers a connection with Cloudflare's
edge over QUIC or HTTP/2 and serves the streams the edge opens from a local
service.

`src/` is the verified library. It holds the decisions and encodings of the
tunnel, each with a contract proved by Verus:

- `protocol` — choosing QUIC or HTTP/2 by name.
- `metadata` — the key/value metadata of a stream, with last-write-wins map
  semantics.
- `decimal` — reading and writing decimal numbers (content lengths, status
  codes).
- `request` — turning a stream's destination and metadata into the request for
  the origin.
- `response` — the metadata that answers a stream, and the base64 header
  encoding used on HTTP/2.
- `h2` — how an HTTP/2 stream from the edge is handled.
- `stream` — the signatures and version that frame QUIC data streams.
- `edge` — the SRV name of the edge and the addresses found for it.
- `config` — tunnel credentials: quick tunnels and named-tunnel credential
  files.
- `rpc` — the registration sent to the edge and the reading of its answer.
- `join` — a writer and a reader joined into one duplex stream.
- `outside` and `text` — the trusted calls into `base64`, `uuid`, `rand`,
  `http` and `std`, each with the contract it is believed to meet.

`app/` is the program around it: command-line arguments, DNS, TLS, QUIC,
HTTP/2, Cap'n Proto messages and RPC, the Cloudflare API, and files.

`tests/` exercises the library on concrete values.
