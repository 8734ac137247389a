# engram

The rules behind the web interface of a personal knowledge base: what a capture
becomes, how a document is cut into bands, which citations of an answer are
linked, what a day and a list of reminders show, and what a client may keep in
its cache.

- `src/` is the library. Every function carries a contract that Verus proves.
  The public proof functions state what holds across functions.
- `tests/` runs the library on concrete values, with the outside crates linked.
- `app/` is the axum adapter: routes, headers, multipart bodies, event streams,
  and the `Base` trait through which the store and the model are reached.

What is believed rather than proved stands behind private functions marked
`external_body`, each with a comment that names the outside function: zones and
the calendar (`zones.rs`), addresses (`links.rs`), hashes, hexadecimal and
header values (`etag.rs`), kinds of content (`assets.rs`), the pairing picture
(`app.rs`), counts in a JSON note (`api.rs`), UTF-8 (`capture.rs`), and
`String::push` (`text.rs`).
