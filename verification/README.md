# kueueski

A small, script-friendly command-line tool for inspecting and operating
[BullMQ](https://bullmq.io/) queues, with a core that is verified by
[Verus](https://github.com/verus-lang/verus).

- `src/` is the library: it reads the values of the command line, works out the settings of
  queues, workers and jobs, steps through the run of a worker and of a handler command, and
  composes what is printed. Each function carries its contract; what holds of several functions
  together, or of a whole run, is stated by the proof functions whose names begin with `law_`.
- `app/` is the tool around it: argument parsing, Redis, processes, signals and the terminal.
- `tests/` runs the library, together with the crates that it calls, on concrete values.

What the library takes on trust are its calls into `serde_json`, `humantime`, `bullmq` and
`String::from_utf8_lossy`: each stands in a small function marked `external_body`, with a comment
that says what is claimed of the call.
