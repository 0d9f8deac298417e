# everythingkb_core

A personal knowledge base that compiles documents found on disk into an Open Knowledge
Format wiki: markdown pages with YAML front matter for document summaries, concepts and
entities, cross-linked with `[label](path.md)` links, plus an index, an ingest log and a
separate private zone.

The library under `src/` is verified with Verus. It holds the rules of the system with
their contracts: which files are scanned and how they are classified, when a file is
ingested again, document names, the prompts sent to the language model and how its
replies are read, the wiki pages written from them (front matter, index entries, links),
page indexes of long documents, what creating a knowledge base lays down, and the
wikilink graph. Its laws (idempotent index and
link updates, the separation of the private zone, the shape of slugs and of the graph)
are proof functions named `law_*`.

`app/` is the `everythingkb` command line around it: files, SQLite, PDF extraction, the
Ollama and OpenAI-compatible clients, and file watching.

Calls into other crates that the library makes (regular expressions, YAML front matter,
JSON validity, SHA-256 content hashes, media types from file headers, EXIF fields,
case mapping, the clock) go through small trusted wrappers marked
`#[verifier::external_body]`, each documented with what its contract claims.
