# sillok

A verified core for Sillok, a command-line chronicle of agent work: daily
objectives, tasks, amendments and retractions kept as an append-only event
archive, with current records derived by replaying the events.

## Layout

- `src/` is the library, written in Verus. Its functions carry contracts
  that Verus proves, except the small wrappers around chrono, chrono-tz,
  uuid, zstd and a few std calls (marked `external_body`), whose contracts
  are trusted and document what the outside code does.
  - `domain/` holds the event model (`event`, `archive`, `id`, `time`,
    `text`), the reducer that replays events into records (`reducer`,
    `view`, `graph`, `indexes`), and the read side (`view_query`,
    `view_tree`, `view_history`).
  - `mutations.rs` and `mutation_helpers.rs` turn commands into new events;
    each success states exactly which events were appended, and a failure
    leaves the archive untouched.
  - `sync/` meshes two archives by event id (`merge`), chooses what each side
    adopts (`plan`), and holds the remote configuration and Git naming rules
    (`config`, `git`, `service`).
  - `storage/` names stores and converts between records and their stored
    labels; `archive_codec.rs` frames the compressed artifact;
    `migration.rs` decides what a legacy-archive migration may do.
  - `cli/` holds the argument types, the human-readable renderings and the
    output rules.
- `app/` is the program around the library: argument parsing, the database,
  files, Git, the terminal and JSON output.
- `tests/` runs the library on concrete values.

## Main properties

- Mutations only append events, and report the record that the new archive
  derives.
- `amend` changes only the fields it is given; `retract` hides a record from
  every read while keeping its history.
- Meshing two archives keeps every event exactly once, is symmetric and
  associative, is stable when repeated, and orders every event after the
  events it depends on.
- Encoding then decoding an archive artifact gives back its bytes.
