# EffectLatch

EffectLatch runs bounded WebAssembly tools on behalf of tenants. What a guest
may do outside is held in attenuated grants, every external effect has a durable
identity, workers are fenced by leases, and where the outcome of an effect cannot
be established that uncertainty is kept explicit.

- `src/` is the library. Its executable code carries Verus contracts.
  - `domain`: limits, requests, hashes, the lives of runs and effects, grants.
  - `runtime`: the module format, the host functions, the protocol between a
    supervisor and its runner, and both of their state machines.
  - `store`: what is decided under the database's locks: admission, scheduling,
    leases, grants and the event log. Rows come in as plain values, and plans of
    what is to be written go out.
  - `control`: configuration, principals, and what each request is answered.
- `app/` is ordinary Rust around it: PostgreSQL, HTTP, processes, threads and the
  WebAssembly engine's callbacks. The runner is the same program under the name
  `effectlatch-runner`.
- `tests/` exercises the library from outside.

Functions marked `external_body` call other crates. The comment above each says
which call it makes and what is claimed of it.

The product is incomplete, and there is no claim of production use.
