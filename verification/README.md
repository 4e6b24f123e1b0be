# next_web

The startup support of the next-web framework: the command line arguments,
config data locations, their resolution and the expansion of their imports,
property sources and placeholders, profiles, the rolling log files, the
process id file, the id and the lifecycle of the application context, and the
messages of the analyses of startup failures.

- `src/` is the library, written in Verus, whose contracts Verus proves.
  Where a result depends on another thread or on the platform (the warnings
  handed to the logging thread, the parts of a path), a contract states only
  what holds of every outcome. The few calls into other crates (`chrono`,
  `chrono-tz`, `tracing-subscriber`, `next-web-core`, `std::path`,
  `std::sync::mpsc`) stand behind small trusted wrappers whose contracts say
  what their documentation promises.
- `app/` is ordinary Rust around the library: it reads the environment, the
  file system and the clock, installs the `tracing` subscriber, writes the log
  and process id files, runs the analyzers of startup failures, and hands the
  library plain values.
- `tests/` holds the tests of the library.
