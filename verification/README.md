# note_logic

The core of a note-taking app: an ordered list of notes that can be created,
listed, read by id, revised, deleted and searched by keyword.

- `src/` is verified with Verus. `note.rs` holds the note and its model,
  `text.rs` the character-level substring search, `manager.rs` the store and
  the contracts of its operations, `laws.rs` properties that span operations,
  `stamps.rs` the calls into `uuid` and `chrono` that give new notes their id
  and timestamps, `request.rs` the request type of the host interface.
- `app/` is the C interface for iOS hosts: a process-wide store, C strings
  in, JSON out (through `serde_json`).
- `tests/` exercises the library.
