# rayrag_server

The decision core of a retrieval-augmented knowledge-base server, verified with Verus.

- `src/` holds the rules of the server as plain functions with contracts: who may read
  or manage a knowledge base, what a request asks for, which model answers it, which
  store is written next and what is put back once a write has failed, how a worker goes
  through a task, which page of the hits a search gets, and what is answered.
- `app/` is the server around it: the HTTP handlers, the background workers, the files
  on disk, and the traits behind which the stores and the models stand.
- `tests/` runs the library on concrete values.

Every store is a table of plain records (`state`), or a step function that is told what
came of the last write (`commit`, `upload`, `datasets`, `tasks`, `memory`, `mirror`).
Request and answer bodies are the tree `json::Json`; numbers that are no integers cross
the library by the bits of their doubles and are never computed with.

What is taken on trust is stated next to the call: the XXH3 hasher (`hash`), zip archives
and JSON documents (`container`, `tasks`), the clock and fresh identifiers (`clock`), and
`String::push` (`text`).
