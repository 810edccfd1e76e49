# Reverse tunnel

A client behind a firewall registers a local service with a server; visitors of
a public port of the server reach that service through connections that the
client opens to the server.

- `src/` is the verified library: the lines that client and server exchange, the
  HTTP messages that they recognise and write, the decisions of every session,
  the pool of backend connections, the handshakes that are under way, and what
  is written to the log about transferred data. Verus proves each function
  against its contract.
- `app/` holds the programs around it: sockets, timers, tasks, command lines.
  `reverse-tunnel server`, `reverse-tunnel client` and `reverse-tunnel
  http-server` run them.
- `tests/` runs the library on concrete values.

What the library takes on trust are the contracts of a few functions of `std`,
`http`, `httparse` and `bytes`, in `src/text.rs`,
`src/common/http_conn/headers.rs`, `src/common/http_conn/parser/head.rs` and
`src/common/http_conn/parser/buffer.rs`.
