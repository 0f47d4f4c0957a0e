# cargo_cmake_bridge

A Verus-verified library behind `cargo cmake-bridge`, a Cargo subcommand that
generates CMake `Find<Crate>.cmake` modules for Rust crates that build a
`staticlib` or `cdylib`, so that a C++ CMake project can use them through
`find_package(<Crate>)` and link the imported target `<Crate>::<Crate>`.

Layout:

- `src/text.rs`: pattern substitution, joining, case mapping, and lemmas on
  what substituting a placeholder keeps of the surrounding text.
- `src/template.rs`: the find-module template, PascalCase and upper-case
  crate names, and rendering.
- `src/metadata.rs`: the workspace as `cargo metadata` reports it (plain
  values), package selection, library kind, artifact and header lookup,
  configured link libraries, load errors and their messages.
- `src/paths.rs`: the `std::path` operations used, whose results depend on
  the platform and the disk.
- `src/cli.rs`: the command line as plain values.
- `src/pipeline.rs`: the decisions of a run as a state machine (which crates,
  in which order, what is written, what is returned).
- `app/`: the program: command-line parsing with clap, running
  `cargo metadata` and `cbindgen`, writing files, and driving the run.
- `tests/`: tests of the library.

Driving a run: the library decides each step of a run (`pipeline::Run`:
`start`, then `step` with what came of the previous action), including the
path each find-module is written to and the directory a generated header
goes in. The program in `app/` performs the actions: running
`cargo metadata` and `cbindgen`, creating directories and writing files.
The loop that performs a whole run (`run` in `app/main.rs`) belongs to the
program; a tool that embeds the generator drives `Run` the same way. A run
stops at the first action that fails; the program returns that error.
