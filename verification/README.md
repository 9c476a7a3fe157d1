# gatekeep

A code-first authorization engine whose policies are ordinary typed values.
Evaluation is deterministic, and every decision carries the facts and the
clause that produced it.

## Layout

- `src/` — the library, verified with Verus: identifiers, conditions and
  policies, full and partial evaluation, residual folds, decisions and their
  traces and denial reasons, tenant bindings, request contexts, fact
  resolutions and evidence, audit entries, attempts, replay and inspection.
  `src/laws.rs` states the properties that span several functions.
- `tests/` — behavioural tests of the library.
- `app/` — the asynchronous authorization boundary (`Authorizer`), the
  resolver and sink traits applications implement, the application clock,
  and the serialized forms of policies and durable records.
