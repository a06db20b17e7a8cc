# shytti (verified core)

The logic of the shytti shell daemon, proved with Verus.

- `src/` — the verified library:
  - `text` — character-level operations (trim, search, replace, split, decimal numerals, UTF-8 text) with spec functions over `Seq<char>`;
  - `json` — the JSON model the daemon reads, with serde_json behind two trusted calls;
  - `error` — the error type, its text and its HTTP status;
  - `bridge` — the Hermytt bridge: addresses, URL parsing, HTTP request framing, reply parsing, resize frames, the key handshake;
  - `pipe` — what the shell↔Hermytt pipe does with each websocket frame and PTY read;
  - `api` — API decisions: key check, shell limit, allowed hosts, the shell→session table;
  - `client` — the command-line client's requests and response handling;
  - `laws` — proof functions for properties that span functions.
- `app/` — the I/O around it: raw HTTP over tokio, the websocket pipe, axum error responses and key middleware, the CLI's TCP exchange.
- `tests/` — tests run against the compiled library.
