# http_server

An HTTP/1.x server library whose request handling is verified with Verus.

- `src/` is the verified library: text and byte primitives (`text`, `utils`,
  `number`), the protocol types (`http_method`, `http_version`,
  `status_code`, `mime_type`, `response`, `middleware`), ordered key/value
  maps (`map`), request parsing (`request`), the decisions taken while
  reading from a client, including a step-by-step chunked-body reader
  (`reading`), routing and `OPTIONS` answers (`routing`), and the server's
  configuration and its decisions: the exact bytes of a response, target
  normalisation, what each request or failure is answered (`server`).
  Laws proved across functions are the public proof functions named
  `law_*`.
- `app/` runs the server: the async socket loops, TLS, the table of
  handlers and middlewares, and `main`, a small file and echo server. It
  performs each read and write the library asks for.
- `tests/` checks the library on concrete values and replays whole
  exchanges over an in-memory connection.

Compression uses `flate2`; the async runtime and TLS in `app/` use `smol`,
`futures`, `futures-rustls` and `rustls`.
