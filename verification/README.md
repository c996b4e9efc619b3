# iec60870

IEC 60870-5-101 and IEC 60870-5-104 telecontrol protocols in verified Rust: the
wire formats, the connection and link state machines, file-transfer sessions,
and the logic of two test daemons (an outstation with a simulated process image
and a master with a last-value cache). Every function of the library states in
its contract what it does, and Verus proves it.

The library opens no sockets and reads no clock. Whoever drives it passes in
the octets that came in and the current instant, and performs the actions that
come out.

| Module | What it holds |
| --- | --- |
| `asdu` | ASDU envelope, header fields, information elements, typed payloads |
| `frame104` | APDU codec, sequence numbers, connection state machine |
| `frame101` | FT 1.2 frames, control field, link-layer state machine |
| `file_transfer` | file-transfer session state machine |
| `points`, `sim` | process image, time tags, simulator schedules |
| `outstation` | answers of an outstation, operations of its control plane |
| `observation`, `cache`, `master` | what a master sees, keeps and asks for |
| `loopback` | laws that span outstation and master |
| `wire`, `control`, `transport`, `text` | control-plane values, line handling, flags, text forms |
| `buf`, `bits`, `float_bits`, `calendar`, `table`, `time` | foundations |

The laws of the library are the public proof functions whose names begin with
`law_`; those of the state machines stand in `frame104/laws.rs`,
`frame101/laws.rs` and `file_transfer/laws.rs`.

Octets are read and written with the `bytes` crate. The calls stand in
`src/buf.rs`, each behind a function whose contract says what it does to the
buffer; these contracts are taken on trust.

`app/` is the program around the library: command line, sockets, JSON, timers,
the random draw and the floating-point arithmetic of the simulator. `tests/`
runs the library.
