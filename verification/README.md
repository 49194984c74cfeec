# tardi

A tiny stack machine where every sequence of bytes is a valid program, with
its behaviour stated and proved in Verus.

The machine is built with signed 32 bit integer words, byte instructions and
16 bit jump addresses. The float-only instructions (`Round`, `Trunc`, `Ceil`,
`Floor`) do nothing, `JmpAprxZero` behaves like `JmpZero` and `JmpFin` like
`Jmp`.

- `src/interpreter.rs`: the machine. `step` and `run` say what one
  instruction and a whole execution do; `Interpreter::dispatch` and
  `Interpreter::execute` are proved to follow them.
- `src/stack.rs`: the fixed capacity stack (a ring buffer) that drops its
  bottom element when full and gives zero when empty.
- `src/util.rs`: little endian encoding of immediate words and jump addresses.
- `src/disassembler.rs`: the text listing of a program.
- `src/file.rs`: the bytes of the `.tardi` file format, and their decoding.
- `app/lib.rs`: the same operations on `std::io` readers and writers and on
  `std::fmt::Write` targets.
