# pikr

Two parts of the launcher pikr, verified with Verus: the entries of dmenu mode,
and the icons of Windows programs.

- `src/` holds the decisions, with their contracts and laws. It touches neither
  the disk nor the shell: where a task needs them, a value says what is due next
  and its method `answer` takes how that went.
- `app/` makes the calls: standard input, the cache directory, the Windows shell
  and GDI.
- `tests/` runs the library, with a system in memory in place of the real one.

A few functions of other crates and of `std` are trusted; each such item says in
its doc comment what is claimed of it: `Sha256::digest` of `sha2`,
`ImageBuffer::write_to` of `image`, and `str::from_utf8`, `String::push` and
`char::from_u32` of `std`.
