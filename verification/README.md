# rusty_daw_engine

The non-realtime core of an audio graph engine, verified with Verus: it turns
the ordered schedule of an audio graph into the tasks that the realtime thread
runs, inserting delay compensation and summing nodes, assigning block buffers,
mimicking "process replacing" ports, and checking the result for data races.

## Layout

- `src/` — the verified library.
  - `compiler.rs`: the compiler, its model (`compile_spec`) and its laws.
  - `schedule_verifier.rs`: the data-race check of a compiled schedule.
  - `schedule_limits.rs`: the check that a schedule is within the limits the
    compiler works in.
  - `resource_pool.rs`: the nodes and buffers that schedules are built from.
  - `interface.rs`: adding, replacing and removing user nodes.
  - `node/`: sample-accurate delay lines, summing nodes, node identifiers.
  - `executor.rs`: how an output buffer is cut into blocks, and interleaving.
  - `host.rs`, `process.rs`, `plugin/`: the host request queue, the CLAP
    process status and block information, audio port descriptions.
  - `lists.rs`: the small inline lists that tasks keep their buffers in.
- `tests/` — tests of the library.
- `app/` — the realtime side, which is not verified: the floating-point DSP of
  the built-in nodes, the shared buffers, the executor that runs compiled
  schedules, the plugin traits, and the display of errors.
