# Nails

A [nailgun protocol](http://martiansoftware.com/nailgun/protocol.html) client and server, verified
with [Verus](https://github.com/verus-lang/verus).

- `src/` is the library: the wire format, the codecs, and the decisions of both ends of a connection
  as machines that take an event and say what to do next. The functions have contracts, and Verus
  proves them, but for what the last paragraph names. The proof functions named `law_*` state what
  holds across functions: that what one end encodes the other decodes, that a server launches the very
  command that its client sent, that a client hears all of the output of its command in order and its
  exit code last.
- `app/` runs the library on sockets, processes and clocks with [tokio](https://tokio.rs/): a client,
  and servers that fork a process for every command.
- `tests/` runs the library on concrete values.

The `Nail` trait, which users of the library implement, promises nothing of what a nail does. What the
library takes from the `bytes`, `byteorder` and `futures` crates and from std without proof stands in
`src/buffers.rs`, `src/paths.rs`, `src/text.rs`, `src/config.rs` and `src/execution.rs`, each item with
the claim that is made of it.
