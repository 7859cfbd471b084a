# x4_variants

Generates a variant mod for X4 ship macros: every ship macro in a directory gets renamed for
the variant, new stats rolled within configured ranges, new text-file entries, and new ware
entries with fresh prices and owners.

- `src/` is the verified library (Verus): string operations with exact specifications
  (`text`), macro and file names (`names`), text-file lookups (`tfile`), stat rolling
  (`stats`), ware rewriting (`ware`), the ship/storage table (`relations`) and the regular
  expressions run by the `regex` crate (`pattern`).
- `app/main.rs` reads `Config.toml`, the macro directory, the ware file and the text file,
  does the floating-point scaling of stats, and writes the output files.
