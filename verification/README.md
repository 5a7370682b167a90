# myimage

An image hosting server. The request logic is a Verus-verified library
(`src/`); the server around it (`app/`) does the HTTP, SQLite, file and
image work.

- `src/text.rs`: characters, numbers as text, splitting, joining, replacing.
- `src/matcher.rs`, `src/ext.rs`: building SQL `SELECT` statements and value lists.
- `src/parse.rs`: URL, body and content-type parsing.
- `src/comm.rs`: answers, typed parameters, stored file names.
- `src/api.rs`, `src/upload.rs`, `src/service.rs`, `src/handle.rs`: what each
  request does, the SQL for the picture index, and static files.
- `src/laws.rs`: properties that relate several of these functions.
