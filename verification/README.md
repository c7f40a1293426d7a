# language_processor_unit

An assembler and a processor for a small assembly language whose instructions
are carried out with the help of a language model (`INF`, `EVAL`, `SIM`),
verified with Verus.

- `src/assembler/`: scanner, tokens, operation codes, the grammar of the
  language as spec functions (`grammar.rs`) and the assembler, whose
  `assemble` is proved to return exactly `assembled(source)`.
- `src/processor/`: memory, registers, decoder, executor, control unit and
  `Processor`. A run is a sequence of `Processor::step` calls; a step that
  needs the world outside (reading a file, printing, asking the model) hands
  back a `Request`, and the result comes back through `Processor::complete`.
  `language_logic_unit.rs` holds what is decided around the model: the chat
  messages of a request, how a reply is read, and how similarity scores give
  a yes-or-no answer.
- `src/byte_code.rs`: laws that tie the assembler's byte code to the
  processor that loads and decodes it.
- `app/`: the command line (`build <file>`, `run <file>`), the `.env`
  settings, HTTP and JSON for the model server, and the cosine similarity of
  embeddings.
- `tests/`: tests of the library.
