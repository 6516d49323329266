# cargo_mobile

Configuration checks and command planning for building Rust apps for Apple
platforms, verified with Verus.

- `src/` is the verified library. `app.rs` checks the `app` section of a project's
  configuration (name, domain, asset directory under the project root) and answers
  questions about it; `name.rs` and `domain.rs` hold the naming rules; `paths.rs`
  treats Unix paths as text (joining, components, prefixes, resolving `..`);
  `macos.rs` builds the commands run on a macOS host; `cli.rs` plans the steps of
  each `cargo apple` subcommand and turns a failed step into its error and report.
- `app/` holds what the library leaves to the caller: command-line parsing,
  serialising the configuration, running processes, and Launch Services on macOS.
- `tests/` runs the library on concrete values.
