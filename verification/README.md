# ttrpc

A ttrpc protocol library whose logic is verified with Verus: framing, the
protobuf encoding of the protocol's own messages, request routing, error
reporting, the payload-transform pipeline, and the decisions of the blocking
and asynchronous clients and servers.

## Layout

- `src/` — the verified library.
  - `wire.rs`: varints, field keys and single protobuf fields, with the faults
    a decoder reports and the fields they occurred in.
  - `codec.rs`: encoding and merging of `KeyValue`, `Any`, `Status`, `Request`
    and `Response`, with decode-after-encode laws for each.
  - `proto.rs`: the frame header, size limits, untyped and typed frames, and the
    `Codec` trait.
  - `messages.rs`, `error.rs`, `context.rs`, `common.rs`, `text.rs`: status
    codes, errors and their texts, request metadata, socket addresses.
  - `security_extension.rs`: connection contexts, payload transforms and the
    authenticated header bytes they are keyed by.
  - `sync/` and `asynchronous/`: what the clients and servers decide for each
    frame, error and worker.
- `app/` — the blocking runtime around the library: sockets, threads, hooks,
  and the error type with its `Display` implementation.

The socket layer targets Linux: the retried system errors are Linux's
`EINTR` and `EAGAIN`, and accepted sockets are made close-on-exec with
`accept4`.
- `tests/` — tests of the library on concrete values.
