# rn_core

The core of a NES emulator as a Verus library: the 6502 CPU and its instruction table, a
two-pass assembler and a disassembler, the APU's channels and frame sequencer, cartridge
loading and mappers, the memory bus, and the controller ports. Every function in `src/` carries
a contract that Verus proves.

- `src/` — the verified library.
- `tests/` — tests run against the compiled library.
- `app/` — host-side code around it: floating-point audio (mixer, filters, resampling),
  shared `Rc`/`RefCell` handles, file loading, and copies of the library's types with `serde`
  and `thiserror` derives.
