# pirostats

The verified core of PiroStats, a KDE Plasma panel widget backend that
renders system statistics as panel and tooltip HTML. This crate holds the
tooltip page builders (top processes, CPU cores, command pages), the HTML
layout engine they share, the notification logic and the daemon loop's
decisions; the panel formatter and the sensor collection are not part of
it.

`src/` is written in Verus; every function there carries a contract that
Verus proves. It holds:

- `cli`, `error`: the command-line grammar and its error messages.
- `domain`: item tokens, forms, metrics and their placement rules, the
  values exchanged with outside services, and the daemon's state.
- `config`: surfaces and sections, item guardrails, asset paths, KDE ini
  parsing, panel orientation and machine detection; `config::tables` holds
  TOML documents as values and resolves a configuration (machine profile
  merge, orientation override, surface parsing).
- `render`: visible width, block grouping, monospace layout, trace
  encodings (bar, column, spark, braille), page building blocks.
- `page_commands`: the tooltip page registry, command-page planning and
  output cleanup, the TTL cache, the connections view, the pager.
- `notify`: edge-triggered desktop alerts and their latches.
- `daemon_loop`: the daemon loop as a state machine: which reloads a poll
  triggers, which stylesheet is in force, when peripherals are rescanned,
  what is rendered and how long the loop sleeps.
- `dbus`: the busctl command line of a D-Bus call, the decoding of its
  JSON reply and its reduction to text fragments.
- `runtime`, `daemon`, `diagnostics`, `numbers`, `text`, `table`: runtime
  paths, the page counter step, colour-scheme and stylesheet text, and the
  string and table helpers the rest is built on.

`app/` is the command-line program around it: process arguments, the
environment, files, locks and child processes. It runs `page` and `click`
and the help and version commands; the commands that need the panel
formatter and the sensors (`daemon`, `render`, `probe`, `profiling`,
`list-items`) answer that they are not implemented.

`tests/` runs the library on concrete values.
