# Diagram previews

Previews of D2 and Mermaid diagrams in Markdown documents.

`src/` is the library, verified with Verus: which code blocks of a document are D2 diagrams,
which of them are rendered again after an edit, which pictures are kept and which are dropped,
what is shown of a diagram, how a run of the `d2` tool goes on after each step, and how Mermaid
diagrams are handed to `merman`. Statements about several operations together are the proof
functions whose names begin with `law_`.

`app/` connects the library to a host program: it runs processes and timers, paints pictures and
shapes text. `tests/` runs the library.

What is taken on trust is marked `external_body` or `assume_specification`: `which`, `merman`,
`serde_json`, and a few functions of the standard library on paths and strings.
