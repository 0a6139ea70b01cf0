# tui

A terminal client for a branching chat server ("XD coder"). The decisions of
the client are a verified library; the terminal, the network and the event
loop are a thin program around it.

- `src/types.rs`: statuses, focus, messages, conversation records and their
  mathematical values.
- `src/text.rs`: whitespace, trimming, line splitting, the blank-line
  normalisation of the chat view, and the chunking that replays a reply.
- `src/tree.rs`: children, fork depth and branch glyphs of the conversation
  tree, and the rows of the tree panel.
- `src/app.rs`: the interface state machine. `App::handle_key` and
  `App::handle_event` return the requests to send; their effect is stated by
  the spec functions `key_step`, `submit_step` and `event_step`.
- `src/laws.rs`: properties across functions (selections stay in range, a
  streamed reply ends up verbatim in the chat, the default conversation is
  never deleted, ...).
- `app/`: the ratatui program, the HTTP requests (reqwest, tokio) and the
  JSON shapes (serde).
