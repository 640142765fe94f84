# lib: a keeper of file aliases

The program remembers files under short names (aliases) and puts the content
of a remembered file in place of another one, by copy or by symbolic link. It
keeps its aliases, a default target file and default options in a small binary
file, `.mmf`, in the root directory of the aliases.

Layout:

- `src/` is the library, with its contracts and proofs:
  - `binary_data.rs`: the records of the alias file, their bytes, and a reader
    of records; records read back what was written (`lemma_value_roundtrip`).
  - `data.rs`: the alias data, its loading from and saving to bytes; saved data
    loads back unchanged (`lemma_save_load_roundtrip`).
  - `cli.rs`: the command line, read into a command and its options.
  - `args.rs`: argument lists read by position.
  - `actions.rs`: the decisions of a run (what changes, which file goes where,
    what is reported).
  - `result.rs`: errors, successes and their messages.
- `app/main.rs` is the program around it: command line, disk and output.
- `tests/` exercises the library.
