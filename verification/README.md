# wispmq_cli

The rules of an MQTT command-line client, verified with Verus: which option wins, what goes into
each packet, what each answer of the broker means, how a message is printed, and how a benchmark
run paces, counts, times and reports.

- `src/` is the verified library. It does no I/O: it takes what was read and says what to do next.
  - `cli` holds the arguments, `client` the handshake, keep-alive and packet identifiers.
  - `publish`, `subscribe` and `request` settle a run and drive it packet by packet.
  - `transport` chooses the layers, reads certificates and keys, and frames a byte stream over
    WebSocket.
  - `bench` is the load generator: its configuration, the order of a run, schedule, payload
    header, publishers, subscribers, statistics and report.
  - `mqtt`, `clock`, `error`, `json` and `text` are what the others are built from.
- `app/` is the program around it: the command line, the sockets and the tasks.
- `tests/` runs the library.

Numbers with a fraction are made in `app/`: the library holds a rate as its bit pattern and its
period, and a fraction of a report as the text to print.
