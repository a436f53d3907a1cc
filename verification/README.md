# kuma-client

A client of an [Uptime Kuma](https://github.com/louislam/uptime-kuma) server.

`src/` is the library, verified with Verus. It holds what the client decides: which calls it makes,
how it reads the answers, what it keeps of them, and in which steps a monitor is stored.

- `client`, `worker`: the state of a client and its operations
- `request`: calls, and how their answers are read
- `job`: adding and changing a monitor, one call after the other
- `tags`: which changes bring the tags of a monitor to what they are meant to be
- `connect`, `events`, `config`, `ready`: making a connection, and what comes in over it
- `monitors`, `model`, `error`: the records
- `json`: the model of JSON values, and what is relied on of `serde_json` and `serde_merge`
- `search`, `text`: searching, numerals and substrings

`app/` is the connection itself and the encoding of the records. `tests/` runs the library.
