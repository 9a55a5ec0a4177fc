# chip8

A CHIP-8 interpreter whose core is verified with Verus.

- `src/semantics.rs` states what the machine does: an abstract state
  (`Chip8View`), the effect of every instruction, when an instruction is defined,
  and the fetch-decode-execute step.
- `src/instruction.rs` decodes opcodes into `Instruction`s.
- `src/cpu.rs` and `src/cpu/opcodes.rs` implement the machine (`Chip8`); every
  public method is proved against `semantics.rs`.
- `src/laws.rs` proves properties that span instructions (call/return, XOR
  drawing, BCD, register store/load, the font, determinism outside `CXNN`, ...).
- `src/frontend.rs` holds the keyboard layout and the pixel conversion;
  `src/pacer.rs` turns elapsed time into instruction steps and timer ticks.
- `src/random.rs` is the one trusted item: the call to `rand::random`.
- `app/main.rs` is the desktop front end (window, keyboard, audio).
