# croc_sidecar

Drives the [`croc`](https://github.com/schollz/croc) file-transfer tool: builders
put together its command line, and a parser turns what it reports on its error
output into events.

- `src/` is the library, verified with Verus.
  - `croc/`: the builders (`Croc`, `CrocSend`, `CrocReceive`) and the command
    they resolve to (`CrocCommand`: program, arguments, environment, streams).
  - `parser.rs`: the output parser, a state machine fed one byte at a time;
    `event.rs` holds the events, `measure.rs` the byte counts and speeds in
    progress lines.
  - `text.rs`, `number.rs`: the string and number operations they rest on.
- `app/` spawns the command with tokio, reads the process output into the
  parser, reads socket addresses, and turns measures into numbers.
- `tests/` runs the library on concrete command lines and outputs.
