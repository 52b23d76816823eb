# heaven

`heaven` is a command-line tool for MoonBit projects that run as a web page
or under node.js: it creates projects, builds them for a target and runs
them.

- `src/` is the library, verified with Verus:
  - `text.rs`: splitting text into characters, pattern replacement
    (`replace_all`, specified by `replaced`) and decimal formatting;
  - `target.rs`: build options, the `web` and `node` targets, choosing a
    target, output directories and the change watcher's report;
  - `project.rs`: project-name rules, the `moon new` arguments, project
    paths and template filling;
  - `manifest.rs`: reading `moon.pkg.json`, setting its `link` member and
    writing it back, through `serde_json`;
  - `network.rs`: private IPv4 addresses and the server URLs shown to the user.
- `app/` is the program: argument parsing, prompts, processes, files, the
  file watcher and the web server.
- `tests/` runs the library on concrete inputs.
