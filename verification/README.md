# tm1638

Verified driver logic for a board of TM1638 seven-segment display chips.

- `src/lib.rs`: the driver (`TM1638Adapter`), its control byte, and the
  board program's `Connector`. Every operation records the line changes it
  decides as `PinOp`s; the caller plays them on the GPIO pins.
- `src/protocol.rs`: the line-level protocol as spec functions, with the
  proofs that bytes go out least significant digit first and that selecting
  an address strobes exactly one chip.
- `src/mappings.rs`: the segment images of digits, letters and symbols.
- `src/funcs.rs`: pictures for running text, a clock, a stopwatch and a timer.
- `app/`: the firmware that owns the pins (embassy on an STM32) and runs the
  loops.
