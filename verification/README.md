# stahl_core

The value model and the built-in primitives of the Stahl Scheme dialect, as a Verus library:
every primitive states what it returns over a mathematical view of runtime values
(`values::SVal`), and Verus proves it.

Layout:

- `src/values.rs` — runtime values, their view, cloning.
- `src/equality.rs` — `equal?`, proved an equivalence relation.
- `src/hashmaps.rs`, `src/hashsets.rs` — immutable maps and sets keyed by `equal?`, with the
  laws of lookup after insertion and removal.
- `src/vectors.rs`, `src/lists.rs`, `src/heap.rs` — immutable vectors, pairs, mutable vectors
  and boxes in a heap, and the roots that keep values alive.
- `src/conversions.rs`, `src/refs.rs` — reading Rust values out of runtime values and back.
- `src/errors.rs`, `src/printer.rs`, `src/symbols.rs`, `src/primitives.rs`, `src/numbers.rs`,
  `src/transducers.rs`, `src/lazy_stream.rs`, `src/cache.rs`, `src/tokens.rs`, `src/sources.rs` — the other
  primitives: errors and spans, printing, symbols, predicates and ordering, exact
  arithmetic (sums, products, differences, quotients, powers and integer square roots, with
  big integers and fractions in lowest terms), integer division and shifts, reducers,
  streams, memoization, reading tokens as values, and the table of source texts.
- `src/bignum.rs` — big-integer arithmetic, computed by the `num` crate.
- `src/collector.rs` — the collector's marking pass: a cell is marked exactly when the roots
  reach it.
- `src/registry.rs` — which built-in modules an engine is given, with or without a sandbox.
- `src/json.rs` — JSON text (parsed by `serde_json`) and documents to values and back; `src/http.rs` — HTTP messages parsed
  by `httparse`.
- `app/` — console output, JSON text output, and floating-point arithmetic and ordering
  around the library.
- `tests/` — the tests of the library.
