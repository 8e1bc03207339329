# memoria

The verified core of Memoria, a personal memory system that records desktop
activity (focused applications, clipboard text, screenshots and the text read
from them), prepares that text for semantic search, groups it into a timeline
and links it in a knowledge graph.

- `src/` is the library, written in Verus: every function carries a contract
  that Verus proves.  `src/external.rs` holds the few trusted calls into std and
  into the `regex`, `uuid`, `chrono`, `shellexpand` and `unicode-normalization`
  crates.
- `tests/` runs the library on concrete inputs.
- `app/` is the desktop application around it: the SQLite store, the
  background capture and indexing tasks, the floating-point embedder and
  ranking, and the commands the user interface calls.
