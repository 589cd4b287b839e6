# tsukuyomidmx

A lighting-control core for DMX: a document of patched fixtures and
effects with validated, undoable changes, effect runtimes that fade between
frames, and an engine that merges live values and effect output into DMX
universes for output plugins.

- `src/` is the library, written in Verus; every function carries its
  contract and is proved. `doc` holds the document, its commands and their
  inverses, `effects` the effects, templates, specs and their runtimes,
  `engine` the tick loop's decisions, `views` and `preview` what a user
  interface shows.
- `tests/` runs the library on concrete cases.
- `app/` is the program around it: the engine loop and output plugins on
  tokio, project files with serde, and the fixture definition folders.
