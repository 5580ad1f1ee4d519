# taj

Taj builds packages from source and installs them: from a mirror of `.taj`
package descriptions (a git checkout or plain HTTP), or straight from a git
repository whose build system it recognises. It keeps a record of what each
package installed, so that uninstalling and upgrading remove exactly the
package's own files.

The library in `src/` is verified with Verus: each public function states in
its contract what it returns or changes (the one exception is `now_ts`, whose
value is the clock's; `timestamp_of` states how a clock reading becomes a
time stamp), and `src/laws.rs` proves properties that span several
functions. The program in `app/` reads the command line,
the configuration, the state file, the disk and the network, and carries out
what the library decides.

## Layout

- `src/cli.rs`: the subcommands and the legacy flags (`-i`, `-gh`, `-gl`, `-u`).
- `src/config.rs`, `src/envmap.rs`: the configuration derived from the environment.
- `src/state.rs`, `src/assoc.rs`: the table of installed packages.
- `src/tajfile.rs`, `src/buildspec.rs`, `src/detect.rs`: package descriptions,
  build methods, and recognising a build system.
- `src/builder.rs`, `src/steps.rs`, `src/command.rs`, `src/git.rs`: the commands
  of builds, install steps and git.
- `src/prefix.rs`, `src/path.rs`: install prefixes and paths.
- `src/preflight.rs`: checking build dependencies.
- `src/mirror.rs`: finding a package's `.taj` file.
- `src/resolve.rs`: installing a mirror package with its dependencies, step by step.
- `src/cloned.rs`: installing a checked-out repository, step by step.
- `src/install.rs`, `src/conflicts.rs`: records, uninstalling, upgrades and file conflicts.
- `src/laws.rs`: properties of the library as a whole.
- `src/text.rs`, `src/order.rs`: strings and their order.
- `app/`: the `taj` program.
- `tests/`: tests of the library.
