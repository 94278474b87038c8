# imap_session

Typed IMAP session building blocks, verified with Verus.

- `src/` is the verified library: the search-query builder and its rendering
  (`query.rs`), message flags (`flag.rs`), UIDs (`uid.rs`), dates and their IMAP
  form (`date.rs`, calling `chrono`), parsing fetched messages and envelope
  addresses (`message.rs`), session errors (`error.rs`), and what each session
  operation sends and how its answer is read (`session.rs`). `text.rs` holds the
  string helpers the others share.
- `app/` is the network side: connecting and logging in over TLS, running the
  planned commands with `async_imap`, the `deadpool` connection pool, and serde
  forms of the library's types.
- `tests/` holds the tests.
