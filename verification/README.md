# reader_next

The decision logic behind the book endpoints of an online novel reader, written
in Verus. The functions in `src/` carry contracts that Verus proves, except
six small wrappers marked `#[verifier::external_body]` (the calls into `std`,
`serde_json`, `form_urlencoded` and `url`), whose contracts are trusted: each
one's doc comment says what it claims of the call it makes.

- `src/` — the verified library: searching and ranking hits (`relevance`,
  `search`), looking up other sources of a book (`available`, `scan`), the
  gathered explore page (`explore`, `explore_scan`), shelf edits (`shelf`),
  where details, chapter lists and chapter text come from (`reading`), which
  source serves a request (`resolve`), request bodies (`form`, `query`), the
  debug search (`debug`), stored candidate sources (`candidates`), remote
  subscriptions (`subscription`), the route table (`routes`) and the small
  JSON event texts (`events`).
- `tests/` — tests that run the compiled library.
- `app/` — the HTTP edge: serde copies of the library's types, the decoding
  of request bodies, and the flows of the longer endpoints (caching a book,
  the gathered explore page, the chapter at an index, the book a lookup is
  for) run against a trait of the outside services.
