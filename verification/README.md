# reactive_messaging

Reactive client/server messaging over TCP/IP, with three wire framings -- textual
(new-line separated), variable-size binary (length-prefixed) and fixed-size binary.

The library under `src/` holds the logic, specified and proved with Verus:

- `size_prefix`: the shortest little-endian size prefixes and their decoding;
- `serialized_binary_dialog`, `textual_dialog`, `mmap_binary_dialog`: the three framings,
  with incremental readers whose output does not depend on how the bytes were chunked, and
  the life cycle of the processor slots the fixed-size framing reads into;
- `dialog`: what a dialog loop does after each write, read or delivery failure, and the order
  of a turn's deliveries;
- `retrying`: how a failed send is followed up under each retrying strategy;
- `responsive`: what becomes of the answers of responsive processors;
- `connection`, `connection_provider`: connections, their ids and states, and the cyclic
  rotation over the addresses a host name resolves to;
- `server_lifecycle`: starting, routing, awaiting and commanding the shutdown of servers;
- `serde`: the contracts serializers and deserializers plug into.

`app/` is the runtime around it: tokio sockets and tasks, `reactive-mutiny` channels,
`keen-retry` retries and logging. `tests/` exercises the library on concrete values.
