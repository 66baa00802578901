# processor

An emulator for a small 16-register, 32-bit processor that runs programs from a
byte memory of 8192 bytes, with its behaviour proved in Verus.

- `src/bytes.rs`: big-endian 32-bit words in memory, and their round trip.
- `src/instructions.rs`: the register, stack and jump operations instructions are
  built from.
- `src/instruction_consts.rs`: the opcodes.
- `src/semantics.rs`: the processor state and one step of it as a spec function.
- `src/cpu.rs`: the executable processor; `Cpu::step` is proved to do exactly what
  the spec step does, and `Cpu::run` what repeated steps do.
- `src/laws.rs`: properties across instructions (read after write, pop after push,
  the zero flag, jumps, halting, what each step may touch).
- `src/print_number.rs`: proof that the `PRINT32` routine prints any non-negative
  number in decimal and returns.
- `src/programs.rs`: example programs.
- `app/main.rs`: runs the Fibonacci program and writes its output to standard output.

Instead of crashing on a malformed instruction, a step reports a `Fault` and leaves the
state as it was.
