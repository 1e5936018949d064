# book_router

A service that takes book and audiobook requests, finds releases through
Prowlarr and Torznab indexers, hands them to qBittorrent, imports finished
downloads into the library folders and tells Calibre or Audiobookshelf.

## Layout

- `src/` is the library, verified with Verus: configuration, the request and
  settings model, release scoring and ranking, the parsing of indexer and
  metadata answers, import planning, the indexer API's payload handling, the
  session cookie, notifications, and the decisions of the background
  workers. Each public function states what it returns in its `ensures`;
  the `lemma_*` proof functions state properties that span several calls.
- The library's trusted wrappers are few and small: URL parsing through
  `reqwest::Url` in `src/urls.rs`, the JSON text of a value through
  `serde_json` in `src/json.rs`, and two `std` string operations in
  `src/text.rs`. Each contract says what is relied on without proof.
- `app/` is the program around the library: the HTTP server, SQLite
  storage, the HTTP clients of the outside services, file moves and the
  worker loops.
- `tests/` exercises the library on concrete values.
