# chunk_enumeration

Enumerates the chunks that a JavaScript bundle references, without running it:

- the chunk file names of a webpack 4 or webpack 5 runtime, from the literal
  filename function that the runtime carries and from the generated load sites;
- what can be proven about the runtime's public path;
- the literal relative specifiers of native ESM `import`, `export ... from` and
  `import()`.

Everything is fail-closed: what is not literal is reported as dynamic or as
computed, never guessed.

## Layout

- `src/` is the library. Every function in it is verified with Verus; nothing in
  it is trusted. `extract_chunk_enumeration` (in `webpack`) and
  `collect_relative_import_specifiers` (in `imports`) are the entry points, and
  `merge` (in `facts`) brings both results together.
- `src/laws.rs`, `src/origins.rs` and `src/evaluation.rs` prove what holds of
  all inputs: that the result is determined, that no URL is guessed, what a
  public path rests on, and that each URL is what the runtime's own filename
  function returns. So a function that may add up two numbers
  (`{1: 7}[c] + {1: 8}[c]`) is dynamic, and a chunk id such as `constructor`
  that finds an inherited property in a lookup table has no URL.
- `app/` connects the library to swc: it converts swc's syntax tree, after
  parsing and scope resolution, to the library's own.
- `tests/` runs the library on parsed sources and on values written by hand.
