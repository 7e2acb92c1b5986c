# clrsrc

A chess engine library whose behaviour is stated in contracts and proved by Verus,
and the program around it.

- `src/` is the library: the rules of chess and move generation, evaluation by hand
  and by network, the search, opening and experience books, the UCI commands,
  training data and self-play, and the engine as a part of another program
  (`EmbeddedEngine`).
- `tests/` runs it.
- `app/` is the program: the UCI loop, files, threads, other processes, and the time
  budget of a move, which is computed in floating point.

What a search finds is a function of the position, of what the engine has learnt and
of its limits: `src/model.rs` defines it, and `search` gives exactly that as long as
neither the clock, a signal nor a tablebase has a say. Where one of them ends a search,
the move, the score and the line are those of the last iteration that was completed
before. Laws that relate several functions are public proof functions beside what they
speak of; those on writing and reading back are in `src/roundtrip.rs`, those on mirror
images in `src/symmetry.rs`, those on lists of moves and on pieces in `src/listing.rs`.

A few functions of the standard library and of `shakmaty-syzygy` are called through
declarations that are trusted, not proved: the clock (`src/time.rs`), tablebase probes
(`src/tablebase.rs`), lower case (`src/text.rs`) and appending to a string
(`src/types.rs`).
