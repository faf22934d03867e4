# steamie

A terminal Steam client whose logic is verified with Verus.

- `src/` is the library, every function of it proved against its contract: the text-VDF
  parser, install detection and launch planning, configuration and chat-history rules, the
  client state machine (navigation, key handling, loading steps, chat, sign-in), and what the
  screens show as text.
- `app/` is the program around it: the terminal, the Web API and the Steam connection, files
  on disk and process spawning. It hands the library plain values and performs the work the
  library queues in the client state's outbox.
- `tests/` runs the library on concrete values.
