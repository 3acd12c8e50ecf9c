# duroxide

Deterministic task orchestration: orchestrations run turn by turn against an
append-only history, schedule activities, timers, external waits and child
orchestrations by correlation id, and are replayed deterministically.

Layout

- `src/` — the verified library (Verus). History and work-item models
  (`event`, `history`, `providers`), the replay engines (`runtime::replay_engine`,
  `runtime::replay_turn`, `runtime::replay_simplified`, `runtime::replay`,
  `runtime::orchestration_turn`), completion ordering (`runtime::completion_map`,
  `runtime::completions`), nondeterminism checks (`runtime::detect`), event-id
  assignment (`runtime::event_ids`), the decisions of the orchestration and
  worker dispatchers (`runtime::orchestration_dispatch`, `runtime::execution`,
  `runtime::instance`, `runtime::worker`, `runtime::dispatch`), the timer queue
  (`runtime::timers`), registries and semantic versions (`runtime::registry`,
  `runtime::versions`), history readers (`runtime::state_helpers`,
  `runtime::state_readers`) and the metric counters (`runtime::observability`).
- `app/` — the runtime around it: handler objects, the provider interface,
  the worker and timer tasks, the instance router, logging set-up and the serde
  forms of the library's types.
- `tests/` — tests of the library.
