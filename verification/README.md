# rpcnet

A small TCP server toolkit whose logic is verified with Verus.

- `src/` is the verified library: the receive buffer (`buffer`), the value
  pool (`pool`), the HTTP/1 head reader and request writer (`http1`, with
  `scan` and `headers`), the binary message decoder (`msg`), the error types
  (`err`, `http_error`, `error`), the server settings (`server`) and the
  decisions a connection takes (`conn`).
- `app/` is the program around it: sockets, channels, timers and the async
  loops that call the library, plus a hyper "Hello, World" service.
- `tests/` exercises the library on concrete values.
