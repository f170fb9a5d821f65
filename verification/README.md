# rystemd

A systemd-compatible service manager: unit files, dependencies, timers, socket
activation, mounts and devices, a control protocol of JSON lines, a
`systemctl`-compatible command, and a terminal UI.

The library under `src/` holds the rules of all of these. It is written in
Verus: every function states what it returns or changes, and the statements are
proved. It does no I/O. Where something has to be read, run or sent, the library
takes what was found as plain values, and gives back what is to be done.

- `unit`, `specifier`, `expand`, `timespan`, `calendar`, `binary64`: unit files
  and the values in them
- `repo`, `storage`: the repository of unit definitions, and how files are stored
- `manager`: units and their states, dependencies, queries and operations
- `enable`, `names`, `paths`: enabling, disabling and masking, names and paths
- `ipc`, `client`, `control`, `json`: the control protocol, from both ends
- `cli`, `tui`, `daemon`, `dbus`: what the programs decide
- `platform`: signals, mounts, devices, and processes on Windows
- `text`, `order`, `table`, `log`: strings, sorted lists, tables and logs

What is taken on trust is little, and each such function says so: reading and
making values of `serde_json`, dates of `chrono`, the platform's signals by
`nix`, and a few functions of the standard library on strings.

`app/` holds the programs around the library: the daemon, the control command
and the terminal UI, chosen by the name that the program is called by. `tests/`
holds the tests.
