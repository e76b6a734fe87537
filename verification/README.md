# servicio_rust

A container-monitoring service and a gRPC student gateway, with their decisions verified
in Verus.

- `src/` is the verified library:
  - `order`: the stable sort by usage (CPU first, memory second) and its uniqueness.
  - `process`: processes, their container ids read from the command line, log entries.
  - `analysis`: which containers one round stops, and the laws of that choice.
  - `text`: whitespace, words and trimming as `split_whitespace` and `trim` define them.
  - `containers`: sparing the log container; the crontab command.
  - `clock`: memory reports stamped with the UTC time (through `chrono`).
  - `graph`: reading replies of the graph service (through `serde_json`).
  - `gateway`: routing students to the service of their discipline.
- `app/` runs the service: files under `/proc`, `docker`, `crontab`, HTTP with `reqwest`,
  Ctrl+C with `ctrlc`, and the actix front of the gateway.
- `tests/` runs the library on concrete values.

Usage percentages are floating-point numbers in the kernel module's report; the library
receives them as order keys (`app/wire.rs` converts).
