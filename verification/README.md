# prism

The core of Prism, a desktop client for GitHub Projects V2 boards. It keeps a
local cache of the boards and an operation log of pending status moves, and
applies the log to GitHub under the "stop on conflict" rule: a move is sent
only while the item is still in the column it was moved from; otherwise the
run stops and the user decides.

- `src/` is the library, verified with Verus: the cache with its schema
  constraints and transactions (`store`, `ports`), the use cases (`bootstrap`,
  `append`, `sync`), the reading of GitHub's GraphQL replies (`json`,
  `mapper`, `github`), settings and the log tail (`settings`), and the laws
  that tie them together (`laws`).
- `app/` is the desktop side around it: the HTTP client, the SQLite file the
  cache is kept in, the serde records the UI exchanges, and the commands.
- `tests/` runs the library on concrete cases.
