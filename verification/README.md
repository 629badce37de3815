# gcli

Five in a row for two, over the network, behind a screen that looks like a log.

- `src/` is the library, verified with Verus: the board and the rule that decides
  a game (`board`), the messages (`protocol`), rooms (`room`, `rooms`), the server
  (`server`, with what each request does in `steps`), the client (`setup`, `lobby`,
  `game`), its screens (`render`, `text`), and what holds of all of it together
  (`laws`). Random numbers and the local time come in through `outside`.
- `app/` is the program around it: sockets, terminal, files and JSON.
  `gcli server` runs the server, `gcli` the client.
- `tests/` runs the library.
