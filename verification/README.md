# rusty_uxn

The [Uxn](https://wiki.xxiivv.com/site/uxn.html) stack machine, its
[Varvara](https://wiki.xxiivv.com/site/varvara.html) devices, an assembler for the
[Tal](https://wiki.xxiivv.com/site/uxntal.html) language and a sprite maker, with their
behaviour stated in contracts and proved with Verus.

## Layout

- `src/` – the verified library.
  - `uxninterface`, `instruction`: the machine's model (memory, program counter, stacks,
    device accesses) and the interface of its instructions, each of which states what it
    does to that model; a run of the machine is a chain of such steps.
  - `ops`: the instruction set: decoding and encoding of instruction bytes, and one handler
    per operation, each with an exact contract over the machine's model.
  - `emulators`: the machine (`uxn`), its devices (`devices`: system, console, screen,
    controller, mouse, file, date and time, and a generic device list), and the device
    sets and event handling of the text-only (`uxnclilib`) and graphical (`uxnemulib`)
    machines.
  - `uxnasmlib`: the assembler: splitting and stripping the source, parsing tokens,
    placing labels, expanding macros, and writing the ROM.
  - `utils::spritemake`: turning an image into the Tal code of a sprite.
- `tests/` – tests of the library.
- `app/` – the command line tools (`uxnasm`, `uxncli`, `uxnemu`, `spritemake`, chosen by the
  first argument): argument parsing, file and console I/O, the window, and the file
  system work that the file device asks for.
