# cpc-breadcrumbs

Breadcrumb tracking for servers that run operations of many steps: crash-safe state that spans
restarts, sessions and agents. The library in `src/` is verified with Verus; `app/` puts it on disk.

## What it does

- A breadcrumb is started with its steps, advances step by step, and ends in the archive, completed
  or aborted. Nothing that ends is dropped: a breadcrumb leaves the active ones only once its
  archived copy is written.
- A request that names no breadcrumb means the only active one; with none or several active it is
  refused.
- A session that writes to a breadcrumb within thirty seconds of another session is told so.
- A breadcrumb that is no longer active is remembered for seven days: aborting it again answers how
  it ended, adopting it is refused with the reason.
- `status` and `list` in the scope `active` read the index alone; `today`, `week` and `all` add the
  archive.
- `reconcile` hands stale entries over in a Markdown file and then takes them out of the index; where
  the file cannot be written, they stay.
- A startup migrates what earlier versions kept in an index and project files, orphans included, and
  renames their directory once all of it is written. An active breadcrumb is replaced by a record of
  the earlier version, never by what only its index knew. The startup then aborts and archives
  breadcrumbs without activity (24 hours unless set otherwise).

## How it is laid out

| Module | Holds |
|---|---|
| `tracker` | the state, and the operations start, step, complete, abort, adopt, backup, reap |
| `listing` | status and lists |
| `reconcile` | reconciliation and the handoff file |
| `migrate`, `startup` | migration of earlier state, and what a server does first |
| `storage`, `archive`, `index` | the parts of the state |
| `schema`, `response`, `error` | records, answers, refusals |
| `conflict`, `clock`, `settings`, `layout` | rules on sessions, time, environment and paths |
| `table`, `text` | keyed tables and text |
| `laws` | what holds across operations, proved for every input |

Each operation comes twice: `step_at` is told the time and says exactly what it answers and leaves
behind, `step` reads the clock and calls it. Times are read and written by `chrono`; what is taken
from it without proof is stated at the functions in `clock` that call it.

Where an operation depends on whether a file can be written, it comes in two parts as well: a plan
says what to write (`plan_complete_at`, `plan_abort_at`, `plan_reap`, `scan`, `plan_migration`), and
the second part is told how the writing went (`finish_complete`, `finish_abort`, `finish_reap`,
`hand_over`, `finish_migration`).

In memory a directory is a table from file name to content. `app/` reads the files into such tables,
calls the library, and writes back what changed, by temporary file and rename. It holds the lock of
the project and that of the index from reading to writing.

## Environment variables

| Variable | Purpose |
|---|---|
| `CPC_ACTOR`, `CPC_SESSION_ID` | the caller's identity |
| `CPC_VOLUMES_PATH` | the shared volume with the active and completed breadcrumbs |
| `CPC_BREADCRUMB_STATE_DIR` | the directory of the index and the project files |
| `CPC_BREADCRUMB_ARCHIVE_DIR` | the archive |
| `CPC_BREADCRUMB_HANDOFF_DIR` | the handoff files |
| `CPC_BREADCRUMB_AUTO_REAP_HOURS` | hours after which breadcrumbs are reaped; `0` disables it |
