# rustfast

A small web application framework whose logic is verified with Verus: the
HTTP/1.1 request parser (with `Content-Length` and chunked bodies), the
route tree, the wire form of responses, the middleware order, the SQL query
builder, the in-memory cache, HS256 tokens, field validation, the
configuration tree and the order of the service providers' hooks.

Layout:

- `src/` — the verified library. Every public function states what it
  returns or changes; the laws of the library are public proof functions
  (named `law_*`) or clauses of the functions they are about. Calls into
  `base64`, `hmac`/`sha2`, `uuid`, `chrono`, `serde_yaml` (reading the
  configuration) and std's clock and text functions go through small trusted
  wrappers whose contracts say what is assumed of them.
- `tests/` — tests of the library on concrete values.
- `app/` — the server program around the library: sockets, SQLite, JSON
  through serde, the configuration file and the environment, the service
  container, facades, logging, and the validation rules that compare
  floating-point numbers.
