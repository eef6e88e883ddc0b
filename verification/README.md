# rustation

A PlayStation emulator core written in Verus: the MIPS R3000A CPU and
its coprocessor 0, the GTE registers, the memory bus (RAM, ScratchPad,
BIOS, DMA, interrupts, timers, SPU registers, the gamepad and CD-ROM
controllers), the MDEC decoder, the CD sector and timestamp formats, the
ISO9660 volume descriptors and directory records, a
small MIPS assembler and disassembler, and the packet layer of a GDB
remote stub.

Layout:

- `src/` — the library. Every function carries a `requires`/`ensures`
  contract over spec-level models (`Seq`, `int`, views of the data
  types) and is proved by Verus; the one exception is the wrapper
  around std's `String::push` in `text.rs`, whose contract is trusted.
- `tests/` — unit and scenario tests run against the compiled library.
- `app/` — a command line frontend: reads the BIOS and an optional disc
  image from disk, identifies the disc's region and lists the root
  directory of its filesystem, and runs the console, feeding the CD-ROM
  drive the sectors it asks for.

Video output is not part of this code base: GPU register writes are
recorded by the bus, and the video timings are handed to the timers.

Verifying the whole crate takes several minutes, most of it in the
CD-ROM controller (`cdrom::controller` and its `bus` and `host`
submodules). While working on one part, verify its module alone with
Verus's `--verify-module` flag (for example `--verify-module
memory::interconnect`).
