# native_ocel

Object-centric event logs (OCEL 2.0) behind handles, for a host that talks in bytes and numbers.

- `src/` is the verified library. `ocel` models a log, `definitions` completes its types, `metadata`
  lists its tables, `names` gives tables and columns their names, `rows` pages tables as rows,
  `json` writes documents, `arrow` and `query` stream tables as Arrow IPC, `registry` keeps logs by
  handle, and `bridge` answers the requests of the host.
- `app/` holds the JNI entry points: it reads files with `process_mining`, turns imported logs into
  those of the library and hands bytes to and fro.
- `tests/` runs the library with the crates it stands on.
