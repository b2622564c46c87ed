# Sheep

Undo for AI coding agents: every agent turn becomes a restorable checkpoint.

The library under `src/` holds everything that decides: which panes finished a
turn, what a snapshot records, what a restore writes and removes, what is
refused, what history is kept, and what the interface shows. All of it is
verified with Verus. Operations that need git, files or a socket are state
machines: each step says what to do next, and is handed what came of it.

| module | what it is |
|---|---|
| `strings`, `order`, `paths`, `calendar`, `digest`, `table` | texts, sorting, paths, dates, SHA-256, a map keyed by text |
| `git`, `calls` | how git is invoked, and every command it is asked |
| `repo`, `lock`, `store` | worktrees and their safety, one writer at a time, the turn log |
| `shadow` | the repository turns are recorded in, restore plans, carrying them out |
| `ops` | recording, planning, restoring, shortening |
| `herdr` | the session protocol, turn detection, the recorder, the watch |
| `tui` | the interface: its state, its frames, its event loop |
| `report` | what the commands print |

`app/` is the program around it: the command line, processes, files, sockets,
threads and the terminal. `tests/` drives the library from outside.
