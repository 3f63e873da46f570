# document_symbols

The part of a code editor that deals with document symbols: the entries of a buffer's outline,
the symbols around the cursor that its breadcrumbs show, and the fetching of symbols from
language servers. The rules are proved with Verus.

- `src/text.rs`, `src/multi_buffer.rs`, `src/language.rs`: positions, excerpts, buffers and
  settings. A snapshot holds what is known at one moment: in which order the anchors of a buffer
  come, in which excerpt a range lies, which settings hold for a language and a file.
- `src/outline.rs`: outline entries, and which of them are shown for a cursor.
- `src/refresh.rs`: the steps of a refresh.
- `src/editor.rs`: the editor.
- `src/chain.rs`, `src/laws.rs`: what holds of all this taken together.
- `src/lookup.rs`: search for a first match.
- `app/`: runs refreshes on futures, for a host that has the event loop and the language servers.
