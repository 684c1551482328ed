# orion_scheduler

A service that keeps one QEMU VM alive for Orion deployments and serves its
logs over HTTP. The decision logic is a Verus-verified library (`src/`); the
HTTP server, the VM driver and file access are ordinary Rust (`app/`).

- `src/text.rs` — searching, trimming, line splitting and joining over `Seq<char>`.
- `src/logs.rs` — ANSI stripping, colouring, log-line decoration, the log
  page and its sections, and the split of the combined log.
- `src/stream.rs` — what each poll of the live log stream sends; proved to
  send only the text appended since the previous poll.
- `src/config.rs` — the target configuration store.
- `src/state.rs` — the VM's details and the slots holding the running VM.
- `src/handlers.rs` — the status code and body of each endpoint.
- `src/keep_alive.rs` — the image a new VM boots from, and its address.

## Why the configuration store is a vector

The targets are keyed by name (`String`). A `std::collections::HashMap<String, _>`
was tried first: after inserting one entry into an empty map, Verus could not
prove that the map then holds one entry (vstd's map specifications only apply
to key types it knows to hash consistently, and `String` is not among them;
the same two lines with a `u64` key verify). The store therefore holds a
`Vec` of `(name, TargetConfig)` pairs with the type invariant that no name
occurs twice, and its view is a `Map` from name to configuration.
