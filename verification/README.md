# cargo-normalize

A Cargo subcommand that rewrites Rust source files into a stable, configurable
top-level item order (imports, modules, macros, constants and type aliases, data
types with their impls, traits, extern blocks, functions, test modules last),
keeping comments with the items they describe. `--check` reports files that are
not normalized without writing them.

The library under `src/` is verified with Verus:

- `text`, `comments`, `spacing`: line handling, the promotion of `//` comments
  above items to marked doc comments and back, function spacing, and the
  whitespace-insensitive comparison.
- `segment`, `normalizer`, `syntax`: cutting a parsed file into item segments
  (source lines and leading comments); `syntax` is the boundary to `syn` and
  `prettyplease`.
- `ordering`, `render`: the reordering for all features or for selected ones,
  and the written form of a file.
- `engine`: what becomes of one file's text, and a run over many files as a
  state machine whose reads and writes the caller performs.
- `config`, `files`, `report`: options and `normalize.toml` settings, which
  directory entries a run looks at, and the unified diff of a change.
- `ordering_laws`, `stability`: every reordering is a permutation of its input,
  and reordering an already normalized order changes nothing.

`app/main.rs` is the command-line program: argument parsing, reading
`normalize.toml`, walking directories, reading and atomically writing files.
