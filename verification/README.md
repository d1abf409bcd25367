# agent_workbench

The decomposition ledger of Agent Workbench: Decomposition Plan documents,
their validation and identities, the lifecycle of a plan slot (import,
revision, application), reconciliation of an applied plan by a successor, and
the project status and next action derived from the ledger.

The library in `src/` is written in Verus. Every executable function carries
a `requires`/`ensures` contract over mathematical models (sequences, sets,
maps and spec functions), and Verus proves the code against it.

## Layout

- `src/text.rs`, `src/path.rs`, `src/order.rs` — text predicates and decimal
  rendering, path comparison by components, code point order and a stable
  sort by key.
- `src/document.rs`, `src/issue.rs`, `src/validation.rs`, `src/metadata.rs` —
  the plan document model, its refusals, structural validation (each refusal
  pinned to the first failing check), and the fenced metadata block.
- `src/identity.rs` — SHA-256 based content, source, payload, projection and
  current identities. The digest itself comes from the `sha2` crate through
  one trusted wrapper.
- `src/lifecycle.rs`, `src/ingress.rs`, `src/actions.rs`, `src/owner.rs` —
  which plan of a slot is current, the checks of import, revision and
  application, and the next actions a slot offers.
- `src/reconciliation.rs`, `src/scope.rs`, `src/successor.rs`,
  `src/projection.rs`, `src/carry.rs`, `src/publication.rs`,
  `src/resolution.rs` — reconciling an applied plan: the scope a successor
  must cover, the successor's coverage, what it projects, how preserved state
  carries over, the rows an application publishes, and the order of checks
  that resolves a reconciliation request into a retry, a refusal or a
  pending reconciliation.
- `src/install.rs`, `src/compatibility.rs` — installing discovered plans and
  migrating decomposition state that predates plans.
- `src/design.rs`, `src/records.rs`, `src/status.rs` — design package
  records, ledger records, and the project status and next action.
- `src/laws.rs` — properties that span several functions, stated and proved
  as proof functions.
- `app/` — the SQLite queries, file system access and YAML/JSON
  serialization around the library: it gathers the ledger facts each
  decision takes, runs import, validation, revision and application in the
  caller's transaction (`app/lifecycle.rs`, `app/publication.rs`), and writes
  what the library decided.
- `tests/` — tests of the library on concrete values.
