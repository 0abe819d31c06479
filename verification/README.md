# mobius

The decision logic of Mobius, a desktop organizer for the Downloads folder,
written in Verus: every function in `src/` carries a contract that Verus
proves, and the properties stated as `law_*` proof functions are proved.
What happens on disk is modelled only where a law says so (the undo round
trip); the rest of the filesystem work, the clock and the desktop shell are
outside the proofs.

## Layout

- `src/classifier.rs`: extension to category and destination, with the
  precedence of remembered rules and overrides.
- `src/paths.rs`: paths held as strings, and the checks on a destination the
  user typed (no `..`, no external folder unless allowed).
- `src/mover.rs`: one move as a state machine (`MoveJob`): duplicate
  policies, previous versions, free names, and the rename-or-checked-copy
  transfer. The caller performs each step on disk and reports back.
- `src/undo.rs`: the undo of a recorded move, in the same style (`UndoJob`).
- `src/scanner.rs`: which folder entries are offered, and the readiness gate
  that waits for a file's size to settle.
- `src/state.rs`, `src/actions.rs`, `src/organizer.rs`: the queue, the
  history, confirming and organizing files, learned rules, and the tray menu.
- `src/requests.rs`: what a confirmed dialog or an organize request leaves
  behind once its moves were carried out.
- `src/config.rs`, `src/table.rs`, `src/text.rs`, `src/clock.rs`: settings,
  a string-keyed table, string helpers, and the clock and identifiers.
- `app/`: the Tauri shell: commands, tray, settings file, the background
  scanner and the filesystem side of moves and undos.
- `tests/`: tests run against the compiled library.
