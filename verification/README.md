# envelope

Containers for payloads related to events, with a verified reader and writer.

- `src/` is the library, verified with Verus. `envelope.rs`, `split.rs` and `write.rs` hold the
  envelope itself; `item.rs` and `items.rs` its items; `headers.rs`, `item_headers.rs` and `meta.rs`
  what stands in headers. `wire.rs` states how an envelope is laid out in bytes and what is read
  from them, `object.rs` and `json.rs` how headers are laid out in JSON.
- `tests/` runs the library, with the crates that it calls.
- `app/` is ordinary Rust around the library: errors that can be shown, names in JSON, times of
  `chrono`, and writing to anything that takes bytes.

An envelope that is written and parsed again is the same envelope, up to what is not written: the
flag for rate limiting, when handling started, and a trace context that could not be read. The
contract of `Envelope::to_vec` states this, and on which envelopes.
