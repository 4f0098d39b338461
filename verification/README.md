# lazyradio

A terminal web-radio player built on the Radio Browser station directory,
with its logic written in Verus and proved against its contracts.

## Layout

- `src/` — the verified library.
  - `search/` — the query language: the query type and its paging, the
    parser and writer (`round_trip.rs` proves that a written query reads
    back unchanged), field validation, autocompletion and the cache of
    result pages.
  - `api/` — station records, the directory's request paths and parameters,
    the list of directory servers and how requests move between them.
  - `storage/` — favorites, history, automatic votes, recent votes, search
    history and the on-disk station cache, each as a model with laws for
    what every operation keeps.
  - `player.rs`, `daemon.rs`, `ipc_client.rs` — the playback state machine,
    the daemon's decisions on each request and on idling, and how a client
    reaches the daemon (including the newline framing of messages).
  - `tui/` — keys and what they do, navigation between tabs and through
    lists, paging, the search popup and its colouring, the text of the
    panels, the browse lists and the persisted status log.
  - `cli/` — the command line: arguments, commands, the interactive result
    menu and the station table.
  - `config.rs`, `clock.rs`, `text.rs`, `playlist.rs` — settings, time,
    character-level text handling and playlist parsing.
- `app/` — the program around the library: argument dispatch, files,
  the directory over HTTP, the daemon connection and the serde forms of the
  library's types.
- `tests/` — tests run against the compiled library.

Calls into other crates (`urlencoding`, `rand`, `chrono`, `unicode-width`)
and the few standard-library calls Verus has no specification for sit behind
small trusted wrappers whose contracts say what the called function does.
