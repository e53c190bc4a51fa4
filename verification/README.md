# chip_8_emulator

A CHIP-8 interpreter whose core is verified with Verus.

- `src/instruction.rs`: the `Instruction` type and `decode_spec`, the meaning of each opcode.
- `src/machine.rs`: `Chip8View`, the machine as mathematical values, and the meaning of each
  instruction (`Chip8View::execute`), of a cycle (`tick`), of the timers, of a reset and of
  the console picture; `can_execute` / `can_tick` say when a step stays in bounds.
- `src/chip8.rs`, `src/chip8/execute.rs`: the executable machine, each method proved against
  the model.
- `src/sprite.rs`: where sprite pixels land and the display part-way through a draw.
- `src/laws.rs`: properties across instructions (call/return, drawing twice, store/load,
  font glyphs, decimal digits, carries and borrows, timer count-down, reset, what each
  instruction keeps).
- `src/random.rs`: the one call into `rand`, for the `RND` instruction.
- `src/tab.rs`: the window's panels and their titles.
- `app/`: the eframe/egui desktop front end (window, docking panels, file dialog, keyboard).
