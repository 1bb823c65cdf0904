# coursework

A set of small Rust programs whose logic is verified with Verus.

- `src/` is the verified library: a Caesar cipher, tribonacci sequences, a tree of
  lights built from instructions, enrolment statistics, dice, greetings, an
  optional integer and a mappable vector, a reference-counted pointer, a line
  matcher, decimal numbers, the command splitting, option reading, remote
  handling and per-line state machine of a parallel command runner, and the
  decisions of a Logo interpreter (words, blocks, procedures, prefix expressions).
- `tests/` runs the library on concrete values.
- `app/` holds the programs around the library: reading input and files,
  printing, spawning processes and threads, serialisation, drawing, and the
  floating-point parts of the Logo interpreter. The first argument names the
  program to run.
