# portolan

Structured retrieval over live, partially materialized host state, verified
with Verus.

Hosts define their own subjects. Sources turn a query, an explicit context
snapshot and a work budget into typed hits that carry provenance, evidence and
affordances. A router runs sources stage by stage under an explicit stop
policy, and a live coordinator turns many progressive sources into one
validated event stream.

## Layout

- `src/base.rs` — hits, evidence, affordances, scores, budgets, context envelopes
- `src/query.rs` — the query envelope
- `src/source.rs` — retrieval sources and candidate buffers
- `src/observe.rs` — retrieval traces
- `src/route.rs` — staged routing; the model of a routing pass and its laws
- `src/schema.rs` — subject projections and the projection catalog
- `src/ingest.rs` — the documents a catalog materializes into
- `src/leit.rs` — query lowering and the mapping of backend matches to hits
- `src/live/` — live sessions: ids and states, events, the source protocol,
  event translation, lifted snapshot sessions and the coordinator
- `app/` — the Leit-backed index builder and retrieval source, and a printable
  catalog error
- `tests/` — scenario tests

Every function in `src/` is verified; the contracts are stated over views
(`Seq`s of hits, events and projections) and spec functions such as
`route_stats`, `validate_spec` and `poll_part_ok`. Public proof functions named
`law_*` state the properties the library promises across calls.

Subjects and source ids are host types. The protocol's verdicts, and what
the coordinator emits for them, are stated for every subject type on events
that do not replace a result (`subject_free`); the known results are then
fixed id by id (`known_match`). A replacement compares subjects, so its
verdict, and exact equality of stored subjects, are stated for subject types
whose `==` and `clone` behave like plain values (`subject_laws` in
`src/base.rs`). Source ids are compared after `clone`; `clone_faithful`
holds for every shared reference, such as a `&str` label
(`lemma_reference_clone_faithful`).

Host traits (`RetrievalSource`, `StagedRetrievalSource`, `LiveSource`,
`LiveSession`, `StagedLiveSource`, `StagedSnapshotSource`, `SubjectMapper`)
carry spec functions naming what an implementation returns (`retrieved`,
`stage_spec`, `opens`, `capabilities_spec`, `maps_to`). Implementations
outside verified code give them the same body as the method they describe
(`opens` may simply be `true`; `LiveSession::lifted_spec` returns `None`
for every session but the library's own lifted snapshot sessions, whose
polls it then describes). These spec functions depend on the value and
the arguments alone: a source whose results depend on interior state (a
cache behind a `Cell`, a clock) does not meet the `retrieve_into` contract,
and the routing contracts then say nothing about it.

Text constructors take `impl Into<String>`; their contracts say the stored
text is what that conversion returns. For `&str` and `String` arguments the
crate states, as trusted specifications of the standard library, that
`String::from` keeps the text and that `From` of a type into itself returns
the value unchanged (`src/query.rs`).

The projection catalog keeps its subjects in a `Vec`, scanned by subject,
with the verified invariant that no subject occurs twice; a hash map keyed
by a host subject type cannot be given contents Verus can reason about here.
