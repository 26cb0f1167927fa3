# gitchat

Branch-and-merge bookkeeping for chat histories, verified with Verus.

- `src/types.rs` — the data types (`Uuid`, `Message`, `Branch`, `Root`, the
  error and option enums) and the spec functions the contracts are written in.
- `src/branch.rs` — making and forking branches.
- `src/root.rs` — creating, forking, finding and removing branches of a root.
- `src/merge.rs` — forced, human (fork-record driven) and manual merges.
- `src/laws.rs` — properties that relate several operations, proved.
- `src/ids.rs` — the one trusted item: drawing a random v4 UUID.
- `app/` — JSON export/import through serde, on copies of the types.
- `tests/` — the scenarios, run against the compiled library.
