# pylot

A project context switcher: it saves a project directory as a named context
(its path, git branch, environment variables, env file, services and required
ports), switches back to it later, starts and stops the context's services,
and shows everything in a terminal dashboard.

## Layout

- `src/` is the library, verified with Verus.
  - `text.rs`, `textmap.rs`: text helpers and the insertion-ordered map that the
    contexts and service records are kept in.
  - `context.rs`, `config.rs`: capturing a context from a scanned directory,
    `.env` parsing, git summaries, the `.pylot.toml` configuration, the shell
    commands of a switch, and ordering contexts by last use.
  - `ports.rs`, `services.rs`: parsing `ss` and `lsof` reports, the service
    records, and the process checks behind port conflicts, health and stopping.
  - `snapshot.rs`: the machine's process snapshot, and the record of the
    processes sent the kill signal, which only its `kill` adds to.
  - `report.rs`, `style.rs`: what each command reports, the switch's decisions
    step by step, and the exact terminal text of each report line.
  - `tui.rs`: the dashboard's state, keys, list and details.
  - `cli.rs`: the subcommands and the shell hook scripts.
- `app/` is the program around it: argument parsing, files under `~/.pylot`,
  running `git`, `ss`, `lsof` and the services, and the terminal.
- `tests/` runs the library on concrete values.
