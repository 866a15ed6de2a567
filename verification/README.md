# shiplift

A client library for docker daemons, in Verus.

- `src/` is the library. It puts together the requests of the Docker remote API and reads the
  replies. Each function states in its contract what it returns, and `src/laws.rs` proves what
  holds across them: that a request can be read back, that no two operations on a container share
  one, that a text given by a caller cannot leave its place in a query.
- `tests/` runs the library.
- `app/` sends the requests, with `hyper` over TCP or a unix domain socket.

The modules of the library:

- `address`: the URL at which a daemon listens
- `hostname`: the host names that the URL parser can read
- `transport`: the way to a daemon, and a request to it
- `docker`, `image`, `container`: the operations
- `form`, `text`: how a query and a path are written
- `json`, `events`, `rep`: how replies are read
- `tree`: that a reply says what its JSON value is
- `laws`: what holds across the operations

What is taken on trust is marked `external_body` or `assume_specification`: the URL parser, the
percent decoder, the punycode decoder, the mapping of domains and the form encoder of `url`, the
event parser for JSON of `rustc-serialize`, and `String::push`.
