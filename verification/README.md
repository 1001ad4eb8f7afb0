# pm3

A process manager for development scripts. A daemon (`pm3d`) starts
processes, keeps their output, and serves it over a local RPC service to
the `pm3` command line client.

- `src/` is the verified library:
  - `log_buffer`: one output buffer read by many clients, each with its own
    cursor; every line is handed to each client exactly once, in order.
  - `pool`: the daemon's table of processes and their buffers; process ids
    are stable and a stopped process stays stopped.
  - `dir`: the home, `~/.pm3` and `~/.pm3/log` paths.
  - `service`: the daemon's answers (`hello`, `get_log`).
  - `boot`: how a client reaches the daemon (connect, else start it and
    connect once more).
- `app/` holds the programs: argument handling, the RPC transport, starting
  and killing processes, and the file system.
- `tests/` exercises the library on concrete values.
