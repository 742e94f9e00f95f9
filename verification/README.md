# difiko

A terminal viewer for reviewing the changes between two git refs: a file
sidebar (flat or as a tree), a unified or side-by-side diff, the commits of
the range, blame, in-diff search, and a per-range record of which files have
been reviewed.

## Layout

- `src/` is the library, verified with Verus. It holds the parsers for git's
  output (branches, commits, `--name-status -z`, diffs, `blame --porcelain`),
  the file tree, the review store, the key bindings and the whole application
  state machine: every key, mouse and git event is a function from the state
  and the event to the next state, with a contract that fixes that state.
- `app/` is the program around it: the terminal loop, drawing, running git,
  and reading and writing files. The library never does I/O itself; it queues
  `Effect`s (load a diff, save the preferences, show a notice, ...) that the
  host carries out in order and answers with events.
- `tests/` exercise the library from outside.

## Collections

Sets and maps keyed by strings are `StrSet` and `StrMap` in
`src/collections.rs`: vectors without duplicate keys, viewed as a `Set` and a
`Map`. With `HashSet<String>`, `HashMap<String, u8>` and
`BTreeMap<String, u8>`, Verus accepted `new` and `insert` but could not prove
that one insert into an empty collection gives length 1, so those types gave
the contracts nothing to build on. The same holds for the directory children
in `src/tree.rs`, kept as a vector of (name, node) pairs in name order.

Sorting uses the stable insertion sort in `src/sort.rs`: Verus refuses a call of
the slice `sort` method ("not supported"), and the contract needs the
stability that std's sort documents, which the local sort proves.

Blame is keyed by line number in a `HashMap<u32, _>`, whose integer keys
Verus handles.
