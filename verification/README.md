# kanban-orchestrator

Drives a Kanban board from Jira: each column of a project's workflow
(`.agents/kanban-workflows/<project>.yml`) is a phase run by a coding agent;
cards come from a Jira search and are reconciled with it on every poll.

Layout:

- `src/` — the verified library (Verus). Workflow validation, the Jira diff
  and reconciliation rules, the marker parser, the concurrency gate, the
  phase state machine, the card transitions, the Atlassian-document renderer,
  workflow readiness, and the texts the orchestrator writes. Public proof
  functions named `law_*` state the properties that hold across calls.
- `tests/` — tests of the library on concrete values.
- `app/` — the runtime around it: YAML and JSON (serde), SQLite (sqlx), Jira
  over HTTP (reqwest), files, hooks, and the scheduler loop (tokio).
