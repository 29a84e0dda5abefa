# cpc

The hardware of the Amstrad CPC 464 and 6128, as a library verified with
Verus: every executable function carries a `requires`/`ensures` contract
over a mathematical model of its chip, and the laws that relate several
operations are stated and proved as public proof functions next to the code
they speak of.

## Layout

- `src/memory.rs` — 64 KB and 128 KB RAM, the eight banking configurations.
- `src/cpc.rs` — the machine: ROM paging, the Z80's memory and I/O port
  decoding, and the character clock that drives every chip.
- `src/gate_array.rs` — palette, pens, screen mode, ROM enables, raster
  interrupt counter.
- `src/crtc.rs` — the 6845 CRTC in its five variants: register access rules,
  counters, HSYNC/VSYNC, DISPEN, cursor, light pen, frame timing.
- `src/video.rs` — pixel decoding of the four screen modes into the frame
  buffer.
- `src/ppi.rs` — the 8255 PPI: keyboard scanning through the PSG bus, port B
  status, bit set/reset, the cassette deck.
- `src/keyboard/` — the 10 × 8 key matrix with ghosting.
- `src/tape.rs` — CDT tape images and pulse playback.
- `src/fdc/disk.rs` — standard and extended DSK disk images.
- `src/fdc/controller.rs` — the uPD765A/B floppy disk controller.
- `src/bytes.rs` — byte-level helpers shared by the image readers.
- `tests/` — executable tests of the library, one file per chip, and
  `tests/laws.rs` with a concrete case of each law.

The Z80 CPU and the user interface are not part of this library: the
machine exposes `read`, `write`, `port_read`, `port_write`, `tick` and
`acknowledge_interrupt` for a CPU to drive.
Where such a call has a precondition on the machine's state (a counter that
must not overflow, a port that must be decoded), the library offers its
executable test: `check_tick`, `check_port_read` and `check_port_write`
return exactly whether the call may be made now.
