# rclrs dynamic message reader

A verified reader for ROS 2 dynamic messages: it walks a message field by
field and element by element in the order in which a serde deserializer asks
for values, and reads each value out of the message's memory.

- `src/structure.rs`: message types (fields, kinds, base types, offsets, sizes).
- `src/memory.rs`, `src/text.rs`, `src/value.rs`: little-endian numbers,
  zero-terminated and wide strings, and single elements read from memory.
- `src/reader.rs`: `DynReader`, its position stack and the reads a
  deserializer makes, with contracts over `ReaderModel`.
- `src/error.rs`: the error type, its texts (`message`) and equality.
- `src/render.rs`: the texts that errors give of values and fields a read
  could not use (numbers in decimal, strings quoted as `Debug` quotes them).
- `src/laws.rs`: what holds across operations (sequence and message round
  trips, traversals of fields and elements at any depth, field order,
  positions in bounds, top-level reads).
- `app/lib.rs`: the `serde::Deserializer` around `DynReader`, the error type
  with its `Display` (through `message`), `Error` and serde impls, and
  `from_dyn_msg_view`.

A message is given as its type, the bytes of the message (`storage`), and the
memory that its sequence and string headers point into (`heap`, addressed
from 0). Headers are three little-endian 64-bit words: data, size, capacity.
Floating-point values cross the library as their bit patterns.
