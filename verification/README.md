# open_detect

A malware detection engine: YARA signature sets (compiled with `yara-x`), a
scanner that recognizes archives from their leading bytes (`infer`,
`mime-type`), unpacks them (`archive`) and matches what they hold, and the
results it reports.

- `src/` is the verified library. `scan_result.rs` holds results and how they
  are built and merged; `signature.rs` signature sets and which directory
  entries are signature files; `file_type.rs` what the scanner reads of a
  buffer's type; `scanner.rs` the scanner and its archive recursion;
  `errors.rs` the error type. Calls into the outside crates sit behind small
  trusted functions, each documented with what it claims.
- `app/` is the file-system front end: scanning files, loading signature
  directories, and an error type with `std::error::Error`.
- `tests/` exercises the library with the real outside crates.
