# dv_cli

The verified core of `dv`, a command line tool that runs Rune scripts against
the `dv` device/user API. The library (`src/`) holds the logic the scripts
rely on, each function with a Verus contract:

- `path`: joining path components, the default configuration directory, the
  files to copy for a checked path;
- `cli`: the command line and the launch plan derived from it (cache database,
  build script, configuration script, scripts to compile);
- `value`: script values and objects, reading named text fields, the local and
  SSH user descriptions;
- `dotconfig`: application entries of a dotfile sync;
- `registry`: the user configuration read from a script object, and the
  registry of users and devices;
- `packages`: package lists per package manager;
- `os`: operating-system names and their compatibility;
- `once`: the run-once protocol as a state machine;
- `assoc`: the keyed lists behind the tables above.

`app/` is the program: argument parsing, the Rune engine and module
registration, and the calls into the device API, which it drives with the
library's decisions.
