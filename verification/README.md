# tasklet

Scheduled tasks: cron-like schedules, steps with timeouts and retries, overlap policies, run
history, and control at runtime, by id or by name.

The library under `src/` is written in Verus. It decides and keeps the books, and never waits:

- `schedule`, `time`, `text`: cron expressions, zones, instants and spans.
- `retry`: retry policies, backoff and jitter.
- `slot`, `blackboard`: values that remember their type, and a typed key/value store for data
  shared between steps.
- `task`, `run`: a task, and one run of it from its first attempt to its last.
- `shared`: what a task publishes, with its bounded history of runs.
- `driver`: a task from command to command; each handler answers with the next action.
- `builders`, `generator`: making tasks, by hand or on a schedule.
- `handle`, `scheduler`: the registry of tasks, control over it, and the scheduling rounds.
- `errors`: what can go wrong.

What holds of the library as a whole is stated by the proof functions whose names begin with
`law_`.

The runtime under `app/` carries the decisions out on Tokio: it spawns tasks, awaits their steps
and callbacks, sleeps, and shares the registry with cloneable handles. Its types with serde and
`std::error::Error` mirror those of the library.

The tests under `tests/` play the runtime's part themselves, without waiting.
