# hoyo_gacha

The verified core of a gacha-record manager for HoYoverse games.

- `src/` is the library, written in Verus: every function carries a contract
  that Verus proves. It holds the manual-insertion rules (supported gacha
  types, resolution of a named top-rank item through the metadata locales, the
  synthesized pulls and the error details and messages), the entry options
  offered for manual insertion, the planning of fetched records into database
  writes, backup naming and numbering, the schema migrations, and the text
  helpers these need (decimal printing, `u32` parsing, trimming). The laws of
  the library stand there as public proof functions (`lemma_*`).
- `tests/` runs the library on concrete values.
- `app/` is ordinary Rust around the library: the SQLite database through
  `sqlx`, the backup files on disk, and serde/snafu copies of the library's
  types.
