# mentisdbd

The daemon of MentisDB, a store for chains of thoughts that agents append: what it
prints while it starts, and the web dashboard over the chains, the agents and the
skills.

- `src/` is the library, verified with Verus: the logic of the daemon and of the
  dashboard, on plain values.
  - `text`, `paint`, `table`: text, colours and bordered tables.
  - `thoughts`, `listing`, `paging`: thought types, filtered listings and their pages.
  - `auth`, `routes`, `reply`: the PIN, the routes and the replies to failed requests.
  - `ids`, `skills`, `chains`, `agents`: what the requests of the dashboard do.
  - `steps`, `catalog`, `summary`, `startup`, `sound`: how the daemon starts, and what it
    prints and plays.
- `app/` is the program around it: the servers, the store, the environment, the
  terminal and the loudspeaker.
- `tests/` runs the library on concrete values.

The functions marked `external_body` call other crates (`axum`, `dashmap`, `diffy`,
`serde_json`, `uuid`) or the standard library; their doc comments say what is taken
on trust.
