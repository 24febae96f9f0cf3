# cairn-core

The decision logic of an agent tool server: what a tool call means, which step
comes next, and what the caller is told. The library is written in Verus; every
function states what it returns, and Verus proves it.

## Layout

- `src/` is the verified library.
  - `handlers/write/` takes a `write` call through its fences, its lock and its
    content, applies its changes, commits and publishes them, previews them, and
    guards against a second delivery.
  - `handlers/terminal/` starts, restarts and ends terminals under leases.
  - `handlers/watch.rs` waits for an issue; the other handlers are about skills,
    todos, warm searches, workflows, web reads and the correlation of tool calls.
  - `oauth/` is the authorization flow: challenges, discovery, endpoints, proof
    keys, scopes, tokens and the stored record.
  - `diff.rs`, `scan.rs`, `text.rs`, `textmap.rs`, `order.rs`, `json.rs` and
    `hashing.rs` are shared by them.
- `app/` is ordinary Rust around the library: HTTP, the keychain, the event loops,
  and the JSON forms of what the library decides. The host's database, executors
  and version control are traits in `app/host.rs`.
- `tests/` runs the library on concrete values.

## How the library is used

Work that only the outside can do is asked for by value. A step of a longer flow is
a type or an enum: the caller performs what it names and hands back what came of
it. Steps that must not be left out are types that only the step before hands out.

What other crates compute (SHA-256, URLs, base64, JSON, random bytes and the clock)
is called through small functions whose contracts Verus takes as given. Each says
in its comment which function it calls and what is claimed of it.

Proof functions named `law_...` state what holds across functions.
