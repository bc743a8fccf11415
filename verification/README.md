# allelua

The logic of the `allelua` Lua runtime, verified with Verus: the Lua type
system of its documentation tool, the lexical scopes of its analyser, and the
values and state machines behind its `time`, `sync` and `term` modules.

## Layout

- `src/` — the verified library.
  - `types.rs`, `env.rs`, `normalize.rs`, `assign.rs`, `checker.rs`,
    `luatype.rs`: types, type environments, normalization of types, the
    assignability relation and the two type checkers built on them;
    `errors.rs`, `text.rs`, `expand.rs`: how types and type errors are shown;
    `height.rs`: the measure that makes the recursive definitions terminate;
    `laws.rs`: properties of the type system that hold across functions.
  - `scope.rs`: variables and nested scopes.
  - `time.rs`: durations and their text.
  - `sync.rs`, `queue.rs`: the wait group and the channels' queues, written
    as state machines that the async runtime polls.
  - `keys.rs`, `term.rs`, `commands.rs`: terminal events, colors and the
    commands that a `term.Queue` emits.
  - `doc.rs`, `cli.rs`: modules of the documentation tool and the
    `allelua run` argument handling.
- `tests/` — tests of the library.
- `app/` — the command-line program and what ties the library to the
  terminal, the clock and the async runtime.

## Self-referential types

Type environments register any type, also one that refers to the identifier
it gets (handed out by `next_id`). The type checkers, and the search for the
types associated with a type, walk the types that a type refers to; they
only take environments where every type refers to earlier ones, since on a
self-referential type that walk never ends.
