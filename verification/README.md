# llm_tui

A terminal chat client for local language models, split into a verified
core and a thin terminal shell.

`src/` is the core, written in Verus. Every function has a contract; the
library's own functions are proved against theirs. The few small wrappers
around std string operations and the two serde_json lookups are marked
`#[verifier::external_body]`: their contracts are trusted, not proved, and
each one's doc comment says what it claims of the function it calls.

- `input`: the multi-line input box. The text is a UTF-8 `String` and the
  cursor is a byte position; the invariant keeps the cursor on a character
  boundary, and each edit is specified over the character sequence.
- `conversation`: the lines shown to the user, the messages sent to the
  model, and the reply being streamed in.
- `chat`: the key bindings and the decisions of the chat panel.
- `sse`: reading the model server's streamed reply line by line.
- `prompt`, `utils`: the system prompt and project detection.
- `message`, `action`, `model_config`: the shared data types.
- `text`, `utf8`: character-sequence specifications and helpers.

Laws that span several operations are public proof functions named `law_*`.

`app/` holds what Verus does not check: file and network I/O, the ratatui
drawing, the crossterm key mapping, and copies of the data types with serde
and strum derives.
