# wasm_lsp_server

A language server for the WebAssembly text formats (`.wat`, `.wast`), with its core
written in Verus and proved against its specifications.

- `src/` is the verified library: conversions between protocol positions and byte
  offsets (`util`, `text`), documents (`document`), syntax trees and a walker over them
  with the context it records (`syntax`), document symbols (`elaborator`), syntax
  diagnostics (`auditor`), hover (`analyzer`), document status records (`database`), the
  order of the services run on document events (`synchronizer`), the decisions of the
  project's task runner (`xtask`), where symbols lie in a document (`placement`), and and
  grammar rules matched against a walker: tokens, optional and restoring rules,
  sequences, choices, repetition and the end of the walk (`rules`).
- `tests/` exercises the library on concrete inputs.
- `app/` is the program around it: the protocol server over standard input and output,
  the tree-sitter grammars and parsers, the document store, and the task runner's process
  handling.
