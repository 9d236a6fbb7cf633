# protector_view

The view models of a cluster security engine, in Verus: how the engine's graph, findings,
readiness and records become what a dashboard shows. Each function has a contract over
mathematical models (texts as sequences of characters, graphs as maps and sequences), and Verus
proves that it meets it.

A view decides nothing, but it can mislead. What the library promises about that is stated and
proved as laws:

- no finding reads as cleared that the model did not clear, and no strip reads all clear while a
  row of the findings is a breach, awaits judgement or is uncertain;
- the report leaves alone only what the model's last word cleared;
- every tab carries the same counts;
- a feed that went dark, a model that does not answer and a standing signing regression keep the
  strip from green, and a feed that was never enabled does not;
- folding replicas never hides the most urgent of them, and neither unrelated pods nor the rows of
  a single pod are merged;
- the most recent alarms and the most urgent rows come first;
- observing an image decides nothing and counts toward no tally;
- a caller whose tier reveals no workloads learns no target of a disclosure.

## Layout

- `src/text.rs`, `text_set.rs`, `order.rs`: texts, ordered sets of texts, stable sorting.
- `src/graph.rs`, `security_graph.rs`, `graph_laws.rs`, `delta.rs`, `image.rs`: the security graph,
  kept in a petgraph `StableGraph`, its keys, its differences, and image references, which
  sigstore parses.
- `src/state.rs`: what the engine hands out.
- `src/props/`: what the views show.
- `src/view_model/`: from the one to the other, a module per view. The modules whose names end in
  `_laws` hold what is proved of several functions together.
- `app/`: the clock, the log, floating-point scores and the wire format, in plain Rust.
- `tests/`: the library on concrete values.

The calls into petgraph and sigstore, and `String::push`, are trusted: `security_graph.rs`,
`image.rs` and `text.rs` say what is taken for granted of each.
