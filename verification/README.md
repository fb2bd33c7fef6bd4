# ia2

The verified core of the IA2 `cs` command-line tool and of its shared
runtime monitor, written in Verus.

`src/` is the library; every function in it carries a contract that
Verus proves:

- `resource` — the slash-path grammar behind `cs ls / get / set / rm`
- `quartet` — query strings, the `ls` table, and what `cs set` does
- `runtime_cmd` — value packing for force/write and the debug-verb requests
- `sim` — scenario validation, polling verdicts and step reports
- `cli` — the command tree, IDE heartbeat labels, `cs check` routing, exit codes
- `edge` — the report lines of `cs probe`, `cs deploy` and edge reads
- `monitor` — the runtime debug state (mode, forces) and typed slot decoding
- `history` — the historian's rings, throttle and min/max/last buckets
- `routes` — what each runtime-monitor route decides
- `http`, `text` — percent-encoding and character-level text helpers

Public `law_*` proof functions state properties that span several
functions (one path addresses one resource across the quartet, unforce
undoes force, a step of N cycles pauses after N scans, …).

`app/` is the `cs` binary: argument parsing, HTTP, files and printing,
calling the library for every decision. `tests/` exercise the library.
