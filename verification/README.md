# ip_allowlist

An IP allowlist for tool calls, written in Rust and verified with Verus. A call
of a guarded tool may proceed only if the client's address lies in one of the
networks that the operator lists.

- The configuration is an object with `allow` (networks in CIDR notation,
  required), `ip_header` (default `x-forwarded-for`) and `tools` (globs, default
  empty: every tool is guarded). Unknown fields, values of another type and
  entries that are no network are refused; nothing is loaded in part.
- The client address is the first hop of `ip_header` among the
  `_request_headers` of the evaluation config, else the address in `x-real-ip`.
  `::ffff:a.b.c.d` counts as `a.b.c.d`.
- A guarded call without an address, or from an address outside every network,
  is denied with HTTP status 403 and JSON-RPC code -32030.
- Denials are audited. Metric and span labels never carry an address.

`src/` is the library; every function there has a contract, and `src/laws.rs`
proves what holds of the whole. Calls into `serde_json`, `ipnet` and the
standard library's address parser, string trimming and clock are trusted at the
places marked `external_body`. `tests/` runs the library on concrete values.
`app/` wires it into the host as a native plugin.
