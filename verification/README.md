# farc

Reading SEGA File Archives (`FArc`, `FArC` and `FARC`), verified with Verus.

- `src/read/` — the archive readers, the byte-level model they are proved
  against (`Parsed` and the `spec_read_*` functions), the error types, and
  the laws of `read/laws.rs`.
- `src/entry/` — the entry types (stored, compressed, encrypted), how each
  entry record is read, and how an entry's contents are extracted
  (gzip through flate2, AES-128-ECB through aes_frast).
- `src/archive.rs` — the archive types, their models, `len` and `magic`.
- `app/` — the `farc` command (`view`, `extract`), with the error messages.
- `tests/` — archives built byte by byte and read back.
