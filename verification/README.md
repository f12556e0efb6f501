# agenticlaw

The verified core of a conscious agent runtime: the conversation and `.ctx` session format,
the streaming and tool-call bookkeeping of a turn, the consciousness stack's cascade, cores and
ego distillation plans, the knowledge-graph executor's registry and manifests, the subagent
registry, the gateway's RPC routing, its WebSocket protocol (current JSON-RPC and legacy
messages, what a connection answers to each) and Bee endpoints, and the terminal client's editor. Every function in `src/`
carries a contract. Verus proves them all except those of the small functions marked
`#[verifier::external_body]`, which call into `serde_json`, `dashmap` or std: their contracts
(and the names they give to outside results, such as `json_value_of`) are believed, not proved,
and each one's doc comment says what it claims of the outside code.

Layout:

- `src/` — the library, written with Verus. Public proof functions (`lemma_*`) state the laws
  that hold across calls (what the `.ctx` format reads back, that a healed history answers every
  tool call, that a version plan never downgrades, that control cascades reach children, ...).
- `tests/` — tests of the library on concrete values.
- `app/` — the command-line program: argument handling, files, the terminal loop.
