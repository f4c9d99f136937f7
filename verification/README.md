# latte binary-file reading, verified

Typed reads of fixed-record binary files for Rune workload scripts, with the
logic proved in Verus.

- `src/byte_order.rs`: the two byte orders, their names, and the decoding of
  32- and 64-bit unsigned integers from bytes, against `le_value`/`be_value`.
- `src/binary_file.rs`: the length of an open file and the checks that every
  seek and bulk read passes before the reader moves or reads; the signed and
  unsigned readings of decoded bytes.
- `src/file_error.rs`: the refusals, their kinds and their exact messages.
- `src/decimal.rs`: decimal text of integers for those messages.
- `src/error.rs`: the message for context data that fails to serialize, from
  each entry's serialize verdict (app/ walks the rune value for them).
- `app/`: opening files, moving a buffered reader, floats, the Rune bindings
  and the application's error type.
