# codex_api

Provider streaming and plugin-script attribution, written in Rust and verified
with Verus.

- `src/sse` maps the event streams of the Anthropic Messages API and the Chat
  Completions API into one shared kind of response event. Each stream is a state
  machine: `step` takes in what the transport reports and returns what the
  consumer gets. The `*_laws` modules prove what holds of whole streams.
- `src/endpoint`, `src/anthropic_types.rs` and `src/anthropic_auth.rs` hold the
  request bodies, the requests that are sent for them and the headers that
  authenticate them.
- `src/plugin_script` tells which script of which first-party plugin a shell
  command runs, and which lifecycle events its execution reports.
- `src/text.rs`, `src/json.rs` and `src/headers.rs` hold what the others share.
- `app` is the ordinary Rust around the library: sockets, the file system, tasks
  and serialization.
- `tests` runs the library.

What is not proved stands behind a doc comment that names the function of
another crate, or of the standard library, that is called there.
