# rustowl

The state and the decisions of a language server that shows ownership and
lifetimes in Rust sources, verified with Verus.

- `src/` is the library. `backend` holds what the server knows and what each
  event makes of it; `roots` and `metadata` find the project that a file belongs
  to; `command` plans the processes; `progress` counts what they have done;
  `models` and `decoration` collect their reports and answer what is shown at the
  cursor, by what `fold` says of taking in items one by one; `path` and `uri`
  hold the paths; `laws` states what holds of the whole.
- `tests/` runs the library.
- `app/` is the server around it: its tasks, its processes, and what it reads and
  writes. What it takes from the compiler's models, the decorations and the
  toolchain is the trait `Toolkit`.
