# sunyat

A verified model of the SunyAT virtual machine, an 8-bit teaching machine
with 255 bytes of RAM, a register file reached through a sliding register
window, and an 80 by 24 character terminal mapped at address `0xFF`.

- `src/` is the library, checked by Verus:
  - `constants` — sizes, register numbers, opcodes, exit codes;
  - `decode` — instruction fields, flags, register window arithmetic;
  - `isa` — the machine state and the meaning of every instruction as
    specification functions;
  - `machine` — the executable machine (`SunyAT`), ROM loading and start-up;
  - `screen` — the emulated terminal's grid and cursor;
  - `laws` — properties that span instructions (stack round trips, the
    register window shift, the line feed after enter, the cursor invariant).
- `app/` is the curses front end: it reads the ROM file, draws the terminal,
  reads keys, and runs the machine one step at a time.
- `tests/` runs the library on concrete programs.
