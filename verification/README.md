# rustx

Key-value loading and storage, and structured logging, with their logic verified
by Verus.

## Layout

- `src/` — the verified library.
  - `kv::parser` — record parsers: tab-separated lines, JSON and BSON documents
    (keys from chosen fields, change kinds from rules), and reading typed values
    from text. JSON and BSON values are read through cursors, one level at a time,
    so the parser's view of a document is stated as a function of its bytes.
  - `kv::serializer` — JSON, BSON, MessagePack and protobuf encodings behind one
    interface.
  - `kv::store` — in-memory stores over a verified association map, a store that
    reloads itself from a stream (in place or by replacement), and the command
    building and reply handling of the Redis store.
  - `kv::loader` — streams of records read line by line, and loaders that decide
    when a watched file is read again.
  - `log` — levels, records, the text formatter, console and rolling-file
    appender decisions (names, sequence numbers, shifts, clean-ups, the gzip form
    of a rolled file), and the logger table with the resolution a (re)configuration applies.
  - `text` — string helpers with their specifications.
- `app/` — what runs around the library: file reading and watching, the Redis
  connection, writing to the terminal and to files, JSON output of records,
  configuration files, and the loggers themselves.
- `tests/` — tests of the library.

The library decides; `app/` performs the input and output that the decisions ask
for and hands the results back.
