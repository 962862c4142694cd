# kiro_admin

The decisions of a service that administers upstream credentials, written in Rust and verified
with Verus: listing and changing credentials, remembering and summarising balances, checking many
credentials at once, importing token files, changing the configuration while the service runs, and
inventing prompt cache statistics.

- `src/` is the verified library. What the token manager, the file system or the clock says comes
  to it as a plain value, and what is to be done next goes out as one.
- `tests/` runs the library on concrete values.
- `app/` is the service around it: it asks the token manager, reads and writes files and does the
  floating point arithmetic on amounts.
