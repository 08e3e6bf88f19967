# tsb — a terminal front end for Spring Boot, with a verified core

`tsb` lists Spring Boot applications, shows what their Actuator endpoints
report (beans, loggers, mappings, environment, thread and heap dumps), lets
you change logger levels, and generates new projects from the Spring
Initializr catalog.

The crate is split in two:

- `src/` is the library, written in Verus. Every function carries a
  contract that Verus proves: the state machine of the terminal UI (keys,
  modes, dialogs, the new-project wizard), the readers of Actuator
  responses, thread-dump ordering and rendering, dump files and their
  order, the configuration's application list, the dependency resolution
  and file plan of a generated project, the values its templates see and
  the rendering of its files (minijinja is called behind one trusted
  wrapper), and the prompts of `tsb new`.
  Public proof functions named `law_*` state properties that hold across
  calls (for example: a level change reads back, the last one wins; saved
  dumps are listed newest first; the configuration never holds two entries
  for one URL).
- `app/` is the program around it: terminal drawing (ratatui, crossterm),
  HTTP (reqwest), files, the configuration file (serde_yaml) and the
  dashboard's floating-point figures. It
  turns terminal keys into the library's keys, performs the work the
  library's `Effect`s ask for, and hands the results back.

`tests/` exercises the library on concrete values.

The configuration lives in `~/.config/tsb/config.yaml` on Linux and macOS
and in `%APPDATA%/tsb/config.yaml` on Windows; the Initializr catalogs sit
beside it. Saved dumps go to `~/.config/tsb/dumps/<application>` on every
platform.

Project templates are not bundled: `tsb` keeps them in a `templates`
directory beside the configuration and downloads a missing one from the
project's repository before generating, as it does for the Initializr
catalogs. Without network access and without local copies, generation
stops with a "missing template" error.
