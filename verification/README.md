# rustydocker

A terminal interface for Docker and Docker Compose. The library in `src/`
holds the interface's state and every decision it makes, verified with
Verus; `app/` is the program around it: terminal, Docker daemon, child
processes and drawing.

## Layout

- `src/app.rs` and `src/app/` — the interface state, key and mouse handling,
  sorting, filtering and targeting of the sidebar lists.
- `src/connection.rs` — which Docker endpoint to use and how an address
  becomes a connection.
- `src/compose.rs` — the `docker compose` command line and environment, and
  the project model of a Compose file.
- `src/logs.rs`, `src/logview.rs`, `src/search.rs` — log stream targets
  and which tasks a sync keeps or starts, the reconnect cursor, how the log
  panel reads lines (level, leading timestamp, HTTP status codes), and where
  a search matches and which pieces of a line it highlights.
- `src/graph.rs` — the levels of the service dependency graph.
- `src/sidebar.rs`, `src/info.rs`, `src/details.rs`, `src/theme.rs`,
  `src/layout.rs` — the text, colours and geometry the panels show,
  including the rows of the container and image details.
- `src/stats.rs` — the integer counting behind the resource graphs.
- `src/update.rs` — whether a release is worth offering.
- `src/dispatch.rs`, `src/actions.rs` — what actions, ticks and Docker
  events lead to: targets, Compose plans, hooks, status messages, reloads.
- `src/laws.rs` — properties that hold across operations.
- `src/strings.rs`, `src/collections.rs`, `src/sorting.rs` — string and
  collection helpers the rest is built on.
- `app/` — `main`, the event loop, bollard, tokio, crossterm and ratatui.

The tests in `tests/` exercise the library on concrete values.
