use vstd::prelude::*;

use crate::crtc::{in_frame, law_tick_in_frame, Crtc, CrtcType};
use crate::fdc::controller::{
    read_ok, spec_msr, spec_read_data, spec_tick, spec_write_data, tick_ok, write_ok, Controller,
    ControllerView, Variant,
};
use crate::gate_array::GateArray;
use crate::memory::{fill_bytes, CpcMemory, MemoryReader};
use crate::ppi::Ppi;
use crate::video::{spec_paint, Video};

verus! {

/// Size of one ROM bank (16 KB).
pub const ROM_SIZE: usize = 0x4000;

/// The Amstrad CPC: the Z80's view of memory and I/O ports, and the clock
/// that drives the video, the CRTC, the CPC's Gate Array, the PPI and the FDC.
pub struct Cpc {
    /// The firmware ROM, paged in at &0000-&3FFF.
    pub lower_rom: Vec<u8>,
    /// The upper ROMs paged in at &C000-&FFFF: BASIC (ROM 0) and, on the
    /// 6128, AMSDOS (ROM 7).
    pub upper_roms: Vec<Vec<u8>>,
    /// The upper ROM number last written to port &DFxx.
    pub selected_rom: u8,
    pub memory: CpcMemory,
    /// The RAM configuration (0-7) of the 128 KB model.
    pub memory_banking_selection: u8,
    pub gate_array: GateArray,
    pub ppi: Ppi,
    pub crtc: Crtc,
    pub video: Video,
    /// The floppy disk controller of the 6128.
    pub fdc: Option<Controller>,
}

/// The bytes `start .. start + len` of `rom`, copied.
pub fn rom_bank(rom: &[u8], start: usize, len: usize) -> (v: Vec<u8>)
    requires
        start + len <= rom@.len(),
    ensures
        v@ == rom@.subrange(start as int, start + len),
{
    let n = rom.len();
    let mut v: Vec<u8> = Vec::with_capacity(len);
    let mut i: usize = 0;
    while i < len
        invariant
            n == rom@.len(),
            start + len <= rom@.len(),
            i <= len,
            v@ == rom@.subrange(start as int, start + i),
        decreases len - i,
    {
        v.push(rom[start + i]);
        i = i + 1;
        assert(v@ =~= rom@.subrange(start as int, start + i));
    }
    v
}

impl Cpc {
    /// The machine is well formed: 16 KB ROMs, RAM of the model's size, and
    /// well-formed Gate Array, frame buffer and FDC.
    pub open spec fn wf(&self) -> bool {
        &&& self.lower_rom@.len() == ROM_SIZE
        &&& self.upper_roms@.len() == 2
        &&& forall|i: int| 0 <= i < 2 ==> (#[trigger] self.upper_roms@[i])@.len() == ROM_SIZE
        &&& self.memory.wf()
        &&& self.gate_array.wf()
        &&& self.video.wf()
        &&& self.fdc matches Some(f) ==> f.wf()
    }

    /// The upper ROM the 6128 pages in: AMSDOS when ROM 7 is selected,
    /// else BASIC (unpopulated slots fall back to ROM 0).
    pub open spec fn upper_rom_index(&self) -> int {
        if self.memory.is_128k() && self.selected_rom == 7 {
            1
        } else {
            0
        }
    }

    /// The RAM byte the Z80 sees at `addr` under the current configuration.
    pub open spec fn ram_at(&self, addr: u16) -> u8 {
        self.memory.ram()[self.memory.address_of(addr, self.memory_banking_selection)]
    }

    /// The byte the Z80 reads at `addr`: the lower ROM at &0000-&3FFF and
    /// the selected upper ROM at &C000-&FFFF when the CPC's Gate Array enables
    /// them, RAM otherwise.
    pub open spec fn spec_read(&self, addr: u16) -> u8 {
        if addr <= 0x3FFF && self.gate_array.lower_rom_enabled {
            self.lower_rom@[addr as int]
        } else if addr >= 0xC000 && self.gate_array.upper_rom_enabled {
            self.upper_roms@[self.upper_rom_index()]@[addr - 0xC000]
        } else {
            self.ram_at(addr)
        }
    }

    /// The ROM banks are those of the image `rom`: 32 KB on the 464
    /// (firmware, BASIC), 48 KB on the 6128 (firmware, BASIC, AMSDOS).
    pub open spec fn runs_rom(&self, rom: Seq<u8>) -> bool {
        &&& rom.len() == if self.memory.is_128k() { 0xC000int } else { 0x8000 }
        &&& self.lower_rom@ == rom.subrange(0, 0x4000)
        &&& self.upper_roms@[0]@ == rom.subrange(0x4000, 0x8000)
        &&& self.memory.is_128k() ==> self.upper_roms@[1]@ == rom.subrange(0x8000, 0xC000)
    }

    /// The machine right after power-on, around the given ROM banks.
    pub open spec fn powered_on(&self) -> bool {
        &&& self.selected_rom == 0
        &&& self.memory_banking_selection == 0
        &&& forall|i: int| 0 <= i < self.memory.ram().len() ==> #[trigger] self.memory.ram()[i] == 0xFF
        &&& self.gate_array.is_reset()
        &&& self.crtc.is_reset(CrtcType::Type0)
        &&& self.ppi.is_reset()
        &&& forall|i: int| 0 <= i < self.video.buffer@.len() ==> #[trigger] self.video.buffer@[i] == 0
    }

    /// A CPC 464 (64 KB, no disk drive) running the 32 KB `rom`: the
    /// firmware in its first half, BASIC in its second.
    pub fn new_464(rom: &[u8]) -> (c: Self)
        requires
            rom@.len() == 0x8000,
        ensures
            c.wf(),
            c.powered_on(),
            !c.memory.is_128k(),
            c.lower_rom@ == rom@.subrange(0, 0x4000),
            c.upper_roms@[0]@ == rom@.subrange(0x4000, 0x8000),
            forall|i: int| 0 <= i < ROM_SIZE ==> #[trigger] c.upper_roms@[1]@[i] == 0,
            c.fdc is None,
            c.runs_rom(rom@),
    {
        let lower_rom = rom_bank(rom, 0, ROM_SIZE);
        let mut upper_roms: Vec<Vec<u8>> = Vec::new();
        upper_roms.push(rom_bank(rom, 0x4000, ROM_SIZE));
        upper_roms.push(fill_bytes(0, ROM_SIZE));
        Self {
            lower_rom,
            upper_roms,
            selected_rom: 0,
            memory: CpcMemory::new_64k(),
            memory_banking_selection: 0,
            gate_array: GateArray::new(),
            ppi: Ppi::new(),
            crtc: Crtc::new(),
            video: Video::new(),
            fdc: None,
        }
    }

    /// A CPC 6128 (128 KB, uPD765A disk controller) running the 48 KB
    /// `rom`: the firmware, BASIC (ROM 0) and AMSDOS (ROM 7).
    pub fn new_6128(rom: &[u8]) -> (c: Self)
        requires
            rom@.len() == 0xC000,
        ensures
            c.wf(),
            c.powered_on(),
            c.memory.is_128k(),
            c.lower_rom@ == rom@.subrange(0, 0x4000),
            c.upper_roms@[0]@ == rom@.subrange(0x4000, 0x8000),
            c.upper_roms@[1]@ == rom@.subrange(0x8000, 0xC000),
            c.fdc matches Some(f) && f.is_reset(Variant::Upd765A),
            c.runs_rom(rom@),
    {
        let lower_rom = rom_bank(rom, 0, ROM_SIZE);
        let mut upper_roms: Vec<Vec<u8>> = Vec::new();
        upper_roms.push(rom_bank(rom, 0x4000, ROM_SIZE));
        upper_roms.push(rom_bank(rom, 0x8000, ROM_SIZE));
        Self {
            lower_rom,
            upper_roms,
            selected_rom: 0,
            memory: CpcMemory::new_128k(),
            memory_banking_selection: 0,
            gate_array: GateArray::new(),
            ppi: Ppi::new(),
            crtc: Crtc::new(),
            video: Video::new(),
            fdc: Some(Controller::new_with_variant(Variant::Upd765A)),
        }
    }

    pub fn gate_array_mut(&mut self) -> (r: &mut GateArray)
        ensures
            *r == old(self).gate_array,
            *final(self) == (Cpc { gate_array: *final(r), ..*old(self) }),
    {
        &mut self.gate_array
    }

    pub fn gate_array(&self) -> (r: &GateArray)
        ensures
            *r == self.gate_array,
    {
        &self.gate_array
    }

    pub fn ppi(&self) -> (r: &Ppi)
        ensures
            *r == self.ppi,
    {
        &self.ppi
    }

    pub fn ppi_mut(&mut self) -> (r: &mut Ppi)
        ensures
            *r == old(self).ppi,
            *final(self) == (Cpc { ppi: *final(r), ..*old(self) }),
    {
        &mut self.ppi
    }

    pub fn crtc(&self) -> (r: &Crtc)
        ensures
            *r == self.crtc,
    {
        &self.crtc
    }

    pub fn crtc_mut(&mut self) -> (r: &mut Crtc)
        ensures
            *r == old(self).crtc,
            *final(self) == (Cpc { crtc: *final(r), ..*old(self) }),
    {
        &mut self.crtc
    }

    pub fn video(&self) -> (r: &Video)
        ensures
            *r == self.video,
    {
        &self.video
    }

    pub fn video_mut(&mut self) -> (r: &mut Video)
        ensures
            *r == old(self).video,
            *final(self) == (Cpc { video: *final(r), ..*old(self) }),
    {
        &mut self.video
    }

    /// The disk controller, on the 6128.
    pub fn fdc(&self) -> (r: Option<&Controller>)
        ensures
            match self.fdc {
                None => r is None,
                Some(f) => r matches Some(rf) && *rf == f,
            },
    {
        self.fdc.as_ref()
    }

    /// The disk controller, on the 6128, for changes.
    pub fn fdc_mut(&mut self) -> (r: Option<&mut Controller>)
        ensures
            old(self).fdc is None ==> r is None && *final(self) == *old(self),
            old(self).fdc matches Some(f) ==> (r matches Some(rf) && *rf == f && *final(self) == (
            Cpc { fdc: Some(*final(rf)), ..*old(self) })),
    {
        self.fdc.as_mut()
    }

    /// `new` is the machine after one character clock: the video paints
    /// under the beam, the CRTC steps, a falling HSYNC edge clocks the CPC's Gate
    /// Array's interrupt counter, VSYNC reaches the CPC's Gate Array and PPI port
    /// B, and the cassette deck and the FDC run for 4 cycles.
    pub open spec fn ticked(self, new: Cpc) -> bool {
        let crtc = self.crtc.spec_tick();
        let vsync = crtc.c3h != 0;
        let ga = if self.crtc.c3l != 0 && crtc.c3l == 0 {
            self.gate_array.spec_hsync()
        } else {
            self.gate_array
        };
        &&& new.video.buffer@ == spec_paint(self.video.buffer@, self.crtc, self.gate_array, self.memory)
        &&& new.crtc == crtc
        &&& new.gate_array == ga.spec_set_vsync(vsync)
        &&& (Ppi { vsync_active: vsync, ..self.ppi }).tape_ticked(new.ppi, 4)
        &&& match self.fdc {
            None => new.fdc is None,
            Some(f) => new.fdc matches Some(g) && g@ == spec_tick(f@, 4),
        }
        &&& new.lower_rom == self.lower_rom
        &&& new.upper_roms == self.upper_roms
        &&& new.selected_rom == self.selected_rom
        &&& new.memory == self.memory
        &&& new.memory_banking_selection == self.memory_banking_selection
    }

    /// One clock steps every component without overflowing a counter.
    pub open spec fn can_tick(&self) -> bool {
        &&& self.crtc.tick_fits()
        &&& self.fdc matches Some(f) ==> tick_ok(f@, 4)
    }

    /// Whether `tick` may run now (see `can_tick`).
    pub fn check_tick(&self) -> (r: bool)
        requires
            self.wf(),
        ensures
            r == self.can_tick(),
    {
        if !self.crtc.check_tick() {
            return false;
        }
        match &self.fdc {
            Some(fdc) => fdc.check_tick(4),
            None => true,
        }
    }

    /// Advances the video and other subsystems by exactly one CRTC
    /// character clock. A driver that cannot know `can_tick` asks
    /// `check_tick` first.
    pub fn tick(&mut self)
        requires
            old(self).wf(),
            old(self).can_tick(),
        ensures
            final(self).wf(),
            old(self).ticked(*final(self)),
    {
        self.video.tick(&self.crtc, &self.gate_array, &self.memory);
        let hsync_prev = self.crtc.hsync();
        self.crtc.tick();
        if hsync_prev && !self.crtc.hsync() {
            self.gate_array.hsync();
        }
        let vsync = self.crtc.vsync();
        self.gate_array.set_vsync(vsync);
        self.ppi.set_vsync(vsync);
        self.ppi.tick_tape(4);
        match &mut self.fdc {
            Some(fdc) => fdc.tick(4),
            None => {},
        }
    }

    /// Reads raw RAM, bypassing ROM mapping. This is how the GA accesses memory.
    pub fn read_ram(&self, addr: u16) -> (r: u8)
        requires
            self.wf(),
        ensures
            r == self.memory.byte_at(addr),
            r == self.memory.ram()[addr as int],
    {
        self.memory.read_byte(addr)
    }

    /// The byte the Z80 reads at `addr`.
    pub fn read(&self, addr: u16) -> (r: u8)
        requires
            self.wf(),
        ensures
            r == self.spec_read(addr),
    {
        if addr <= 0x3FFF && self.gate_array.lower_rom_enabled() {
            self.lower_rom[addr as usize]
        } else if addr >= 0xC000 && self.gate_array.upper_rom_enabled() {
            let rom: usize = match self.memory {
                CpcMemory::Model128K { .. } => if self.selected_rom == 7 {
                    1
                } else {
                    0
                },
                _ => 0,
            };
            self.upper_roms[rom][addr as usize - 0xC000]
        } else {
            self.memory.read(addr, self.memory_banking_selection)
        }
    }

    /// A Z80 write: it always goes to RAM, also under a paged-in ROM.
    pub fn write(&mut self, addr: u16, value: u8)
        requires
            old(self).wf(),
        ensures
            final(self).wf(),
            final(self).memory.ram() == old(self).memory.ram().update(
                old(self).memory.address_of(addr, old(self).memory_banking_selection),
                value,
            ),
            final(self).memory.is_128k() == old(self).memory.is_128k(),
            *final(self) == (Cpc { memory: final(self).memory, ..*old(self) }),
    {
        self.memory.write(addr, value, self.memory_banking_selection);
    }

    /// The I/O ports a read is answered on: the CRTC status and data ports,
    /// the PPI ports A-C and, on the 6128, the FDC status and data ports.
    pub open spec fn can_port_read(&self, port: u16) -> bool {
        let hi = port >> 8u16;
        if 0xBC <= hi <= 0xBF {
            self.crtc.readable_port(port)
        } else if 0xF4 <= hi <= 0xF7 {
            self.ppi.can_read(port)
        } else if port == 0xFB7E {
            self.fdc is Some
        } else if port == 0xFB7F {
            self.fdc matches Some(f) && read_ok(f@)
        } else {
            false
        }
    }

    /// Whether a read of `port` is answered now (see `can_port_read`).
    pub fn check_port_read(&self, port: u16) -> (r: bool)
        requires
            self.wf(),
        ensures
            r == self.can_port_read(port),
    {
        let hi = port >> 8u16;
        if 0xBC <= hi && hi <= 0xBF {
            self.crtc.check_readable_port(port)
        } else if 0xF4 <= hi && hi <= 0xF7 {
            self.ppi.check_read(port)
        } else if port == 0xFB7E {
            self.fdc.is_some()
        } else if port == 0xFB7F {
            match &self.fdc {
                Some(fdc) => fdc.check_read_data(),
                None => false,
            }
        } else {
            false
        }
    }

    /// `r` and `new` are the byte and the machine after a read of `port`.
    pub open spec fn port_read_result(self, port: u16, r: u8, new: Cpc) -> bool {
        let hi = port >> 8u16;
        if 0xBC <= hi <= 0xBF {
            r == self.crtc.spec_read(port) && new == (Cpc { crtc: self.crtc.spec_after_read(port), ..self })
        } else if 0xF4 <= hi <= 0xF7 {
            r == self.ppi.spec_read(port) && new == self
        } else if port == 0xFB7E {
            r == spec_msr(self.fdc->Some_0@) && new == self
        } else {
            &&& new.fdc matches Some(g) && (r, g@) == spec_read_data(self.fdc->Some_0@)
            &&& new == (Cpc { fdc: new.fdc, ..self })
        }
    }

    /// An I/O read. A driver that cannot know `can_port_read` asks
    /// `check_port_read` first.
    pub fn port_read(&mut self, port: u16) -> (r: u8)
        requires
            old(self).wf(),
            old(self).can_port_read(port),
        ensures
            final(self).wf(),
            old(self).port_read_result(port, r, *final(self)),
    {
        let hi = port >> 8u16;
        if 0xBC <= hi && hi <= 0xBF {
            self.crtc.read(port)
        } else if 0xF4 <= hi && hi <= 0xF7 {
            self.ppi.read(port)
        } else if port == 0xFB7E {
            match &self.fdc {
                Some(fdc) => fdc.read_main_status_register(),
                None => 0,
            }
        } else {
            match &mut self.fdc {
                Some(fdc) => fdc.read_data_register(),
                None => 0,
            }
        }
    }

    /// The I/O ports a write is answered on: the CRTC select and data
    /// ports, the upper ROM select, the PPI, the CPC's Gate Array and, on the
    /// 6128, the FDC motor and data ports. Writes to &EFxx (printer) and
    /// &F8xx (expansion) are accepted and ignored.
    pub open spec fn can_port_write(&self, port: u16, value: u8) -> bool {
        let hi = port >> 8u16;
        if hi == 0xEF || hi == 0xF8 || hi == 0xDF || hi == 0x7F {
            true
        } else if 0xBC <= hi <= 0xBF {
            self.crtc.writable_port(port)
        } else if 0xF4 <= hi <= 0xF7 {
            self.ppi.can_write(port, value)
        } else if port == 0xFA7E {
            self.fdc is Some
        } else if port == 0xFB7F {
            self.fdc matches Some(f) && write_ok(f@, value)
        } else {
            false
        }
    }

    /// Whether a write of `value` to `port` is answered now (see
    /// `can_port_write`).
    pub fn check_port_write(&self, port: u16, value: u8) -> (r: bool)
        requires
            self.wf(),
        ensures
            r == self.can_port_write(port, value),
    {
        let hi = port >> 8u16;
        if hi == 0xEF || hi == 0xF8 || hi == 0xDF || hi == 0x7F {
            true
        } else if 0xBC <= hi && hi <= 0xBF {
            self.crtc.check_writable_port(port)
        } else if 0xF4 <= hi && hi <= 0xF7 {
            self.ppi.check_write(port, value)
        } else if port == 0xFA7E {
            self.fdc.is_some()
        } else if port == 0xFB7F {
            match &self.fdc {
                Some(fdc) => fdc.check_write_data(value),
                None => false,
            }
        } else {
            false
        }
    }

    /// The RAM configuration after a write of `value` to the CPC's Gate Array
    /// port: on the 6128, function 3 selects configuration `value & 7`.
    pub open spec fn banking_after(&self, value: u8) -> u8 {
        if value & 0xC0 == 0xC0 && self.memory.is_128k() {
            value & 0x07
        } else {
            self.memory_banking_selection
        }
    }

    /// `new` is the machine after a write of `value` to `port`.
    pub open spec fn port_write_result(self, port: u16, value: u8, new: Cpc) -> bool {
        let hi = port >> 8u16;
        if hi == 0xEF || hi == 0xF8 {
            new == self
        } else if 0xBC <= hi <= 0xBF {
            self.crtc.spec_write(port, value, new.crtc) && new == (Cpc { crtc: new.crtc, ..self })
        } else if hi == 0xDF {
            new == (Cpc { selected_rom: value, ..self })
        } else if 0xF4 <= hi <= 0xF7 {
            new == (Cpc { ppi: self.ppi.spec_write(port, value), ..self })
        } else if hi == 0x7F {
            &&& self.gate_array.spec_write(value, new.gate_array)
            &&& new == (Cpc {
                gate_array: new.gate_array,
                memory_banking_selection: self.banking_after(value),
                ..self
            })
        } else if port == 0xFA7E {
            &&& new.fdc matches Some(g) && g@ == (ControllerView {
                motor_state: value & 1 != 0,
                ..self.fdc->Some_0@
            })
            &&& new == (Cpc { fdc: new.fdc, ..self })
        } else {
            &&& new.fdc matches Some(g) && g@ == spec_write_data(self.fdc->Some_0@, value)
            &&& new == (Cpc { fdc: new.fdc, ..self })
        }
    }

    /// An I/O write. A driver that cannot know `can_port_write` asks
    /// `check_port_write` first.
    pub fn port_write(&mut self, port: u16, value: u8)
        requires
            old(self).wf(),
            old(self).can_port_write(port, value),
        ensures
            final(self).wf(),
            old(self).port_write_result(port, value, *final(self)),
    {
        let hi = port >> 8u16;
        if hi == 0xEF || hi == 0xF8 {
        } else if 0xBC <= hi && hi <= 0xBF {
            self.crtc.write(port, value);
        } else if hi == 0xDF {
            self.selected_rom = value;
        } else if 0xF4 <= hi && hi <= 0xF7 {
            self.ppi.write(port, value);
        } else if hi == 0x7F {
            self.gate_array.write(port, value);
            let is_128k = match self.memory {
                CpcMemory::Model128K { .. } => true,
                _ => false,
            };
            if (value & 0xC0) == 0xC0 && is_128k {
                self.memory_banking_selection = value & 0x07;
            }
        } else if port == 0xFA7E {
            match &mut self.fdc {
                Some(fdc) => fdc.set_motor(value & 1 != 0),
                None => {},
            }
        } else {
            match &mut self.fdc {
                Some(fdc) => fdc.write_data_register(value),
                None => {},
            }
        }
    }

    /// Acknowledges the CPC's Gate Array interrupt.
    pub fn acknowledge_interrupt(&mut self)
        requires
            old(self).wf(),
        ensures
            final(self).wf(),
            *final(self) == (Cpc {
                gate_array: GateArray {
                    interrupt_counter: old(self).gate_array.interrupt_counter & 0xDF,
                    interrupt_requested: false,
                    ..old(self).gate_array
                },
                ..*old(self)
            }),
    {
        self.gate_array.acknowledge_interrupt();
    }
}

/// A Z80 write always reaches RAM (also under a paged-in ROM): reading the
/// address back gives the value, unless a ROM is paged in over it, in which
/// case the ROM byte still shows.
pub proof fn law_write_through(c: Cpc, new: Cpc, addr: u16, value: u8)
    requires
        c.wf(),
        new.memory.is_128k() == c.memory.is_128k(),
        new.memory.ram() == c.memory.ram().update(c.memory.address_of(addr, c.memory_banking_selection), value),
        new == (Cpc { memory: new.memory, ..c }),
    ensures
        new.ram_at(addr) == value,
        !(addr <= 0x3FFF && c.gate_array.lower_rom_enabled) && !(addr >= 0xC000
            && c.gate_array.upper_rom_enabled) ==> new.spec_read(addr) == value,
        (addr <= 0x3FFF && c.gate_array.lower_rom_enabled) || (addr >= 0xC000
            && c.gate_array.upper_rom_enabled) ==> new.spec_read(addr) == c.spec_read(addr),
{
}

/// The video circuit reads the first RAM bank whatever the RAM
/// configuration, and ROM paging does not hide RAM from it.
pub proof fn law_video_reads_first_bank(c: Cpc, addr: u16)
    requires
        c.wf(),
    ensures
        c.memory.byte_at(addr) == c.memory.ram()[addr as int],
{
}

/// Port writes reach only their own device: the FDC ports change only the
/// FDC; the CRTC ports only the CRTC; the CPC's Gate Array port only that chip
/// and the RAM configuration; the ROM select port only the upper ROM
/// number; the PPI ports only the PPI.
pub proof fn law_port_isolation(c: Cpc, port: u16, value: u8, new: Cpc)
    requires
        c.wf(),
        c.can_port_write(port, value),
        c.port_write_result(port, value, new),
    ensures
        port == 0xFA7E || port == 0xFB7F ==> new == (Cpc { fdc: new.fdc, ..c }),
        0xBC <= port >> 8u16 <= 0xBF ==> new == (Cpc { crtc: new.crtc, ..c }),
        port >> 8u16 == 0x7F ==> new == (Cpc {
            gate_array: new.gate_array,
            memory_banking_selection: new.memory_banking_selection,
            ..c
        }),
        port >> 8u16 == 0xDF ==> new == (Cpc { selected_rom: new.selected_rom, ..c }),
        0xF4 <= port >> 8u16 <= 0xF7 ==> new == (Cpc { ppi: new.ppi, ..c }),
{
    assert(0xFA7Eu16 >> 8u16 == 0xFA && 0xFB7Fu16 >> 8u16 == 0xFB) by (bit_vector);
}

/// A RAM configuration write (Gate Array function 3) leaves that chip as
/// it was; on the 6128 it selects configuration `value & 7`, on the 464 it
/// does nothing at all.
pub proof fn law_ram_configuration_write(c: Cpc, port: u16, value: u8, new: Cpc)
    requires
        c.wf(),
        port >> 8u16 == 0x7F,
        value & 0xC0 == 0xC0,
        c.port_write_result(port, value, new),
    ensures
        new.gate_array == c.gate_array,
        c.memory.is_128k() ==> new == (Cpc { memory_banking_selection: value & 0x07, ..c }),
        !c.memory.is_128k() ==> new == c,
{
    assert(value >> 6u8 == 3) by (bit_vector)
        requires
            value & 0xC0 == 0xC0,
    ;
}

/// Selecting upper ROM 7 on the 6128 pages AMSDOS in at &C000; every other
/// number (and every number on the 464) pages BASIC in.
pub proof fn law_upper_rom_selection(c: Cpc, port: u16, value: u8, new: Cpc)
    requires
        c.wf(),
        port >> 8u16 == 0xDF,
        c.port_write_result(port, value, new),
    ensures
        new.upper_rom_index() == (if c.memory.is_128k() && value == 7 { 1int } else { 0 }),
        new.upper_rom_index() == 1 ==> forall|a: u16|
            a >= 0xC000 && c.gate_array.upper_rom_enabled ==> #[trigger] new.spec_read(a)
                == c.upper_roms@[1]@[a - 0xC000],
{
}

/// A port write never changes the RAM or the ROM banks.
pub proof fn law_port_write_keeps_memory(c: Cpc, port: u16, value: u8, new: Cpc)
    requires
        c.wf(),
        c.can_port_write(port, value),
        c.port_write_result(port, value, new),
    ensures
        new.memory == c.memory,
        new.lower_rom == c.lower_rom,
        new.upper_roms == c.upper_roms,
{
}

/// A clock tick never changes the RAM or the ROM banks.
pub proof fn law_tick_keeps_memory(c: Cpc, new: Cpc)
    requires
        c.wf(),
        c.can_tick(),
        c.ticked(new),
    ensures
        new.memory == c.memory,
        new.lower_rom == c.lower_rom,
        new.upper_roms == c.upper_roms,
{
}

/// `states` is a run of the machine through the port writes `ports[i]` of
/// `values[i]`: each write is answered, and `states[i + 1]` is the machine
/// after the write from `states[i]`.
pub open spec fn port_write_run(ports: Seq<u16>, values: Seq<u8>, states: Seq<Cpc>) -> bool {
    &&& ports.len() == values.len()
    &&& states.len() == ports.len() + 1
    &&& forall|i: int|
        0 <= i < ports.len() ==> states[i].wf() && states[i].can_port_write(ports[i], values[i])
            && #[trigger] states[i].port_write_result(ports[i], values[i], states[i + 1])
}

/// A byte the Z80 writes while RAM configuration 0 is active is what
/// `read_ram` gives back at that address, whatever run of port writes
/// (ROM enables, RAM configurations, ...) follows.
pub proof fn law_bank0_write_survives_port_writes(
    c: Cpc,
    addr: u16,
    value: u8,
    after: Cpc,
    ports: Seq<u16>,
    values: Seq<u8>,
    states: Seq<Cpc>,
)
    requires
        c.wf(),
        c.memory_banking_selection == 0,
        after.memory.is_128k() == c.memory.is_128k(),
        after.memory.ram() == c.memory.ram().update(c.memory.address_of(addr, 0), value),
        after == (Cpc { memory: after.memory, ..c }),
        states[0] == after,
        port_write_run(ports, values, states),
    ensures
        states.last().memory.ram()[addr as int] == value,
{
    assert(c.memory.address_of(addr, 0) == addr);
    lemma_port_writes_keep_memory(ports, values, states, ports.len() as int);
}

/// Along a run of port writes the RAM stays as it was.
proof fn lemma_port_writes_keep_memory(ports: Seq<u16>, values: Seq<u8>, states: Seq<Cpc>, n: int)
    requires
        0 <= n <= ports.len(),
        port_write_run(ports, values, states),
    ensures
        states[n].memory == states[0].memory,
    decreases n,
{
    if n > 0 {
        lemma_port_writes_keep_memory(ports, values, states, n - 1);
        let k = n - 1;
        assert(0 <= k < ports.len());
        assert(states[k].port_write_result(ports[k], values[k], states[k + 1]));
        assert(states[k].wf());
        assert(states[k].can_port_write(ports[k], values[k]));
        law_port_write_keeps_memory(states[k], ports[k], values[k], states[k + 1]);
    }
}

/// With the ROM image `rom`, a read at &0000-&3FFF gives the firmware byte
/// while the lower ROM is enabled; a read at &C000-&FFFF gives the AMSDOS
/// byte (6128 with ROM 7 selected) or the BASIC byte (any other selection)
/// while the upper ROM is enabled; every other read gives RAM under the
/// active configuration.
pub proof fn law_rom_mapping(c: Cpc, rom: Seq<u8>, addr: u16)
    requires
        c.wf(),
        c.runs_rom(rom),
    ensures
        c.spec_read(addr) == if addr <= 0x3FFF && c.gate_array.lower_rom_enabled {
            rom[addr as int]
        } else if addr >= 0xC000 && c.gate_array.upper_rom_enabled {
            if c.memory.is_128k() && c.selected_rom == 7 {
                rom[0x8000 + (addr - 0xC000)]
            } else {
                rom[0x4000 + (addr - 0xC000)]
            }
        } else {
            c.ram_at(addr)
        },
{
}

/// A machine just powered on can run its first clock: the CRTC (Type 0
/// with every register 0) holds C0 still and the disk controller waits
/// for a command.
pub proof fn law_power_on_can_tick(c: Cpc)
    requires
        c.wf(),
        c.powered_on(),
        c.fdc matches Some(f) ==> f.is_reset(f.variant),
    ensures
        c.can_tick(),
{
    assert(c.crtc.reg(0) == 0 && c.crtc.reg(2) == 0 && c.crtc.reg(7) == 0);
}

/// Once the CRTC counts inside a frame with the timing registers left
/// alone, every clock of the machine keeps it there and no CRTC counter
/// can overflow; on the 464 the machine can then always tick.
pub proof fn law_tick_keeps_crtc_in_frame(c: Cpc, new: Cpc)
    requires
        c.wf(),
        in_frame(c.crtc),
        c.ticked(new),
    ensures
        c.crtc.tick_fits(),
        in_frame(new.crtc),
        c.fdc is None ==> c.can_tick(),
{
    law_tick_in_frame(c.crtc);
}

} // verus!
