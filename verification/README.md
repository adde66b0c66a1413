# multi_agent

A multi-agent software-engineering assistant: a planner splits a goal into
steps for specialised agents (tool, executor, memory, coding, review, testing,
evolution), a task runtime schedules the steps and records what happens to
them as task events, and risky actions (project commands, patches) go through
user approval.

Scheduling is specified exactly: advancing a task starts every ready step,
round after round while the runtime completes planner steps itself, and
records for each step it starts one `StepStarted` event, followed for a
planner step by its `StepCompleted` event.

## Layout

- `src/` — the library, verified with Verus: the task runtime and its
  scheduling (`runtime`, `ready`, `schedule`, `control`, `intake`, `records`),
  plans (`plan`, `llm_plan`, `planner`), approvals, patches and diffs,
  the command allowlist, the agents' decisions and reports, message routing
  (`sending`, `api`, `message`), project and manifest summaries, the
  calculator's expression grammar (`calc`: tokens and shunting-yard order),
  and the properties that span them (`laws`).
- `app/` — the program around it: SQLite storage, file-system and process
  work, HTTP calls to model services, the tools' outside work (among them the
  calculator's floating-point evaluation), and a loop
  that reads one JSON command per line on standard input and answers one
  JSON line per command, e.g.
  `{"command": "send_message", "request": {"content": "…", "agentId": null}}`.
- `tests/` — tests of the library.

A model key sent with a message travels only in the transient context: the
request context that is kept records whether a key was given, never the key.
