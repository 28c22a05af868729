# dbg_expy

The verified core of an x64dbg plugin that telescopes pointers, shows the
register context and emulates the next instructions with unicorn.

- `src/` is the library, checked by Verus:
  - `common.rs`: hexadecimal parsing (`from_hex`), the register, stack and
    code views, labels and command arguments;
  - `common/format.rs`: number and padding formatting;
  - `common/primitive.rs`: strings, characters and C buffers;
  - `common/disasm.rs`: instruction decoding and formatting with `iced_x86`;
  - `colors.rs`: coloured HTML links and the colour palette;
  - `telescope.rs`: the telescope lines;
  - `unicorn.rs`: page alignment, register mapping and operand analysis for
    the emulator.
- `app/` is the plugin itself: the entry points, the debugger calls
  (`x64dbg_sdk_sys`) and the emulator (`unicorn_engine`).
- `tests/` runs the library on concrete values.
