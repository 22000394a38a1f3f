# plato_signal_chain

A composable five-layer signal chain for room sensor readings, with proofs of its contracts.
A reading becomes a tile; the tile runs through the layers in order, and the first
layer that resolves it stops the chain:

| position | layer | resolves when |
|---|---|---|
| L0 | `DeadbandLayer` | the reading is in its normal range and within the deadband of the previous reading |
| L1 | `RuleLayer` | a rule matches (the first one wins) |
| L2 | `NoopLayer` (placeholder) or `ModelLayer` (language model) | never / when the model answers a tile with a reading |
| L3 | `CloudLayer` | the cloud is available |
| L4 | `LoggingLayer` | never: it records the tiles that reach it (a log of capacity 0 records nothing) |

Quantities are whole numbers in the sensor's unit; confidences are percentages.

Layout:

- `src/tile.rs`: readings, tiles and the `Layer` trait, whose `step` relation is what each
  layer's `process` is proved against.
- `src/layers/`: the layers, each with its step relation.
- `src/chain.rs`: `SignalChain::process`, proved to run the layers as the `run` relation says
  and to keep its statistics consistent (counts that add up; latency summed, saturating at the largest `u64`). For a
  chain with the model at L2, `begin` stops where the model must be asked and `resume` goes on
  with its answer; `lemma_model_run` shows the two halves make one run.
- `src/stats.rs`: `ChainStats` and `LayerTally`, a per-layer tally viewed as a map.
- `src/builder.rs`: `SignalChainBuilder` and `all_noop_chain`, with the settings after any
  sequence of setter calls (`lemma_last_setter_wins`).
- `src/laws.rs`: properties across calls (an available cloud resolves everything, a chain of
  placeholders resolves nothing, the log never resolves and stays bounded, tiles keep their
  identity, the deadband compares with the previous reading).
- `src/text.rs`, `src/clock.rs`: decimal rendering, string replacement, and the clocks.
- `app/`: serialisable records, ratio statistics, and the HTTP client of the language model
  (`process_with_model` drives `begin` and `resume`).
