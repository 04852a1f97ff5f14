# sextant

The verified core of a multi-agent trading engine, written in Verus.

Agents read the market from shared memory, propose intents, and the engine
resolves conflicts between them and compiles the survivors into orders. This
crate proves the decisions of that pipeline: the agents' position cycles and
trade caps, the escalation of the perception router and its answer cache,
consensus among agents, admission of intents to their execution templates,
the position changes and stop-losses that follow a fill, the research
ratchet and the human lock on strategy mutations, the event ring, the
market text agents read prices from, the configuration's references, and
what the dashboard shows.

For the event ring, which a writer and its readers share through a
memory-mapped file, what is proved is the slot arithmetic and the lock
protocol: on an in-memory model of the ring, a reader is handed the latest
events in the order they were written (for non-empty payloads of at most
one slot without zero bytes), and a file reader takes the slots it read
only when the sequence word was stable and unchanged around the read. That
the memory map behaves like the model, across processes, is assumed.

Layout:

- `src/` — the library, verified by Verus. Two functions are trusted
  rather than proved, each a wrapper of an outside call whose result the
  library names and only passes on: `dashboard::to_lowercase` (std's
  `str::to_lowercase`) and `perception::json_string_field` (a string
  field read with `serde_json`). Laws that span several functions are public proof
  functions named `lemma_*`.
- `tests/` — tests of the library on concrete values.
- `app/` — the unverified shell: the memory-mapped event file, reading
  floating-point numbers, the agents' and the router's real-valued
  readings, the numeric side of compilation, consensus and backtests, the
  environment and the TOML configuration file.

Verify with `verus src/lib.rs --crate-type lib`.
