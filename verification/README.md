# niri-pip

Sticky Picture-in-Picture and pinned-window control for the Niri compositor: browser PiP
windows are recognised by configurable detectors, floated, sized, put in a corner of their
output and kept on the focused workspace, without taking focus away from the window the user
was working in. Windows can also be pinned by hand, resized, scaled, nudged, locked and given
ready-made presets from a command-line client, a small web settings page or a compact menu.

## Layout

- `src/` is the verified library, written with Verus. Its functions carry contracts that
  Verus proves, except a few small trusted wrappers around outside calls (the `regex`,
  `toml_edit` and `serde_json` crates and a handful of std functions), whose contracts are
  believed and say in their doc comments what they claim:
  - `config` — the configuration model, its defaults and its validation;
  - `pattern`, `detector` — detectors and their scores, on top of the `regex` crate;
  - `engine` — the state machine that turns compositor events and user commands into
    compositor actions, with the laws that tie its operations together;
  - `geometry`, `model`, `state`, `protocol` — placement arithmetic, the compositor's model,
    the remembered state and the daemon protocol;
  - `daemon`, `cli`, `ui`, `niri` — the decisions of the daemon, the command-line client, the
    settings page and the Niri connection, apart from their input and output;
  - `text`, `named`, `idmap` — strings, name-keyed and id-keyed tables.
- `app/` is the program around the library: argument parsing, files, sockets, the async
  runtime and the web server. It runs as `niripipd` (daemon), `niripip-ui` (settings page) or
  `niripip` (client), chosen by the name it is started under.
- `tests/` holds the tests, run against the compiled library.

Positions and sizes that the compositor reports as floating-point numbers are kept as
integers in the library: positions as millionths of a percent of the output, scales in
thousandths.

Hiding, minimising, overlay and peek requests are part of the protocol but not carried out:
the daemon answers them as not supported. The settings page always reports the minimise
options as on, since there is no minimise stack to configure.

Unpinning a window pinned by hand puts it back on the workspace it was pinned from, in its
former tiling or floating mode (tiling only where `restore_layout_on_unpin` is on), at its
former size and, for a floating window, its former position.
