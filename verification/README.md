# grease

Message passing between tasks, with the decisions of each task verified
by Verus.

Tasks exchange `Message`s (requests, confirmations, indications and
responses) over channels. Each sender and receiver carries a ghost label:
the two ends of one channel share it and a clone keeps it, so contracts can
say that a message goes to the sender it was addressed to (or a clone of
it). Labels of different channels are not known to differ.

## Layout

- `src/lib.rs` - `Context`, the channel ends (`MessageSender`,
  `MessageReceiver`, `make_channel`), the `Message` tree and `Outgoing`.
- `src/channel.rs` - the trusted wrappers around `std::sync::mpsc`.
- `src/socket.rs` - the socket task: its messages and `TaskContext`, which
  holds the listeners, connections and queued writes. Each method takes the
  outcome of the network call before it and returns the messages to send.
- `src/http.rs` - the http task: its messages, response rendering and
  `TaskContext`, which handles every message it receives. Request parsing
  is done outside the library and handed in as a `ParseOutcome`.
- `src/multimap.rs` - the trusted wrappers around `multi_map::MultiMap`.
- `src/webserv.rs` - the (very small) web server task: GET /status is
  passed to the layer above, its reply is sent and then confirmed once the
  connection has closed; other requests get "404 Not Found".
- `src/echo.rs` - the echo server of the example program.
- `src/atcommands.rs`, `src/address.rs`, `src/text.rs` - message types for a
  modem task, socket addresses, decimal rendering and header-name
  comparison.
- `app/` - the program: threads, the mio event loop of the socket task,
  request parsing for the http task, logging.
- `tests/` - tests of the library.
