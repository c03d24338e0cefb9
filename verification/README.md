# bcp

A verified library for the Bit Context Protocol: a compact, typed binary
format for structured LLM context. It encodes blocks (code, conversation
turns, file trees, tool results, documents, structured data, diffs,
annotations, embedding references, images, extensions) into a payload,
decodes payloads again, whole or as a stream, and renders decoded blocks
as XML, Markdown or minimal text within a token budget.

## Layout

- `src/` — the library, verified with Verus. Each public function states
  its result in `ensures` over spec functions; the laws of the format
  (encode then decode gives the blocks back, the streaming decoder agrees
  with the whole-payload decoder, the budget never degrades a block below
  what its priority allows, ...) are public proof functions.
  - wire layer: `varint`, `header`, `block_frame`, `fields`, `summary`
  - block types: `enums`, `blocks`, `diff`, `file_tree`, `block`, `block_type`
  - encoding and decoding: `encoder`, `compression`, `content_store`,
    `decoder`, `decompression`, `streaming`, `block_reader`, `block_writer`,
    `roundtrip`
  - rendering: `config`, `budget`, `placeholder`, `render_xml`,
    `render_markdown`, `render_minimal`, `driver`
  - command and benchmark logic: `cli`, `inspect`, `stats`, `messages`,
    `fixture`, `markdown`, `tokens`, `capture`, `text`
- `tests/` — tests run against the compiled library.
- `app/` — the `bcp` command line: argument parsing, file and stream I/O,
  JSON manifests and fixtures, and the token benchmark.
