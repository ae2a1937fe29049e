# mnml-tickets-linear

A terminal viewer for Linear issues, with configurable tabs backed by
Linear's GraphQL API. The core of the viewer is written in Verus and
proved against its contracts; the terminal, network and file-system
plumbing is ordinary Rust around it.

## Layout

- `src/` — the verified library:
  - `config.rs` — the configuration, its scaffold and its validation
    (at least one tab; each tab names exactly one of `filter`/`view_id`).
  - `app.rs` — the viewer state: tabs, active tab, cursor, status line;
    fetches are handed out (`start_refresh`) and their outcome recorded
    (`finish_refresh`).
  - `keys.rs` — the key table and what each action does to the state.
  - `ui.rs` — tab labels, issue rows, colours, the refresh timer.
  - `theme.rs` — reading the host theme's `[base_30]` palette and
    remapping named colours onto it.
  - `linear.rs` — issues and the rules that decide a GraphQL reply.
  - `auth.rs`, `text.rs` — the API key file and character-level helpers.
- `app/` — the executable: command line, files, HTTP client, browser,
  terminal drawing and the event loop.
- `tests/` — tests of the library.
