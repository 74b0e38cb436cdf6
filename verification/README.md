# dial9

Telemetry for Tokio applications: trace segments are compressed, symbolized and
stored by a background worker, threads are sampled by CPU timers of their own, and
traces are browsed in a viewer.

This crate holds the decisions of these parts as a library verified with Verus, and
around it the code that talks to the outside.

## Layout

- `src/`: the verified library.
  - `config`, `path`: settings, the directory and file stem they lead to, and the
    pipeline they call for.
  - `segment`, `metadata`, `error`: what flows through the pipeline, and what an
    error means for a segment's file.
  - `worker`, `worker_loop`, `worker_laws`: which segments are read, which
    processors run on them, when the worker scans, waits, drains and stops.
  - `gzip`, `symbolize`, `write_back`, `upload`: the processors.
  - `ctimer`: per-thread CPU timers.
  - `viewer`: the viewer's settings and its directory of static files.
  - `fuzz`: structured round-trip fuzzing of the trace format.
  - `text`: decimal numbers and text from bytes.
- `app/`: file access, S3, metrics, timers of the operating system, the command
  line and the server. It carries out what the library decides and hands back what
  came of it.
- `tests/`: the library on concrete values.

Functions marked `external_body` call into `flate2`, `arbitrary` and the standard
library. Their doc comments say what is relied on.
