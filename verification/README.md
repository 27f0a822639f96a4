# blog_api

The logic of a small blog server (authors, posts with attached files, users
with salted password hashes and session tokens), verified with Verus.

- `src/` is the library: field validation, salted SHA-256 hashing and salts,
  file-type and file-size rules, the file-by-file upload plan, login matching,
  token claims and the route guards' decisions, and the texts the server
  answers with. Every function there carries a contract, and the laws that tie
  them together (a stored user logs in again, hashes lose nothing, an upload
  stops at its first refusal, ...) are proof functions beside them.
- `app/` is the warp server around it: routes, SQLite access, JSON and JWT
  encoding, the clock.
- `tests/` runs the library on concrete values.
