# surreal_dbops

A Kubernetes operator that manages SurrealDB instances, namespaces, databases
and schema migrations through five custom resources (`Instance`, `Namespace`,
`Database`, `Schema`, `Rollout`) and a mutating admission webhook that records
who approved a rollout and when.

The decisions of the operator live in a library verified with Verus; the
program around it does the Kubernetes, SurrealDB, network and file I/O.

## Layout

- `src/` — the verified library.
  - `text.rs`: character-level text operations (trimming, splitting,
    replacing, joining, case mapping) with their specifications.
  - `crd/`: the custom resources as plain data.
  - `surreal/diff.rs`: parsing a SurrealQL schema into its objects, canonical
    forms of table and field definitions, and the statements that bring a
    live database schema to the desired one. `surreal/client.rs`: how an
    endpoint is connected to.
  - `controller/`: one state machine per resource. `start` gives the first
    state and action; `step` takes the outcome of the last action and gives
    the next. Each step is specified by a transition relation
    (`*_next`), and laws about the Rollout and Schema reconcilers (approval
    gating, history pruning, skipping migrated databases, condition
    updates) are proved there.
  - `webhook/server.rs`: the review of an admission request and the JSON
    patch that records an approval.
- `app/` — the operator binary: CRD definitions with their serde and kube
  derives, the drivers that perform each action of the state machines, the
  HTTPS webhook server, and `--crdgen` / `--crdgen-files`.
- `tests/` — scenarios for the parser, the diff, the reconcilers and the
  webhook.
