use vstd::prelude::*;

verus! {

/// The CRTC variants found in CPC machines.
#[derive(Clone, Copy, PartialEq, Eq, Debug, Structural)]
pub enum CrtcType {
    /// UM6845 / HD6845S — Standard in early CPC 464 models.
    Type0,
    /// UM6845R — Common in mid-generation models. Features readable status.
    Type1,
    /// MC6845 — Motorola. Common in late-generation CPC 464/6128 mainboards.
    Type2,
    /// AMS40489 — ASIC-integrated CRTC. Standard in CPC+ series.
    Type3,
    /// AMS40226 (Pre-ASIC) — Integrated in cost-down CPC 6128 mainboards.
    Type4,
}

/// `hi` and `lo` as the high and low byte of a 16-bit word.
pub open spec fn spec_word(hi: u8, lo: u8) -> u16 {
    (hi * 256 + lo) as u16
}

/// Builds the 16-bit word whose high byte is `hi` and low byte is `lo`.
pub fn word(hi: u8, lo: u8) -> (r: u16)
    ensures
        r == spec_word(hi, lo),
        r == hi * 256 + lo,
{
    let r = ((hi as u16) << 8u16) | (lo as u16);
    assert(((hi as u16) << 8u16) | (lo as u16) == hi * 256 + lo) by (bit_vector);
    r
}

/// The 16-bit screen address the CPC's Gate Array fetches for the CRTC memory
/// address `ma` and raster line `raster`: MA0-MA9 go to A1-A10, RA0-RA2 to
/// A11-A13 and MA12-MA13 to A14-A15.
pub open spec fn spec_phys_address(ma: u16, raster: u8) -> u16 {
    (((ma & 0x3FF) << 1u16) | (((raster as u16) & 0x07) << 11u16) | ((ma & 0x3000) << 2u16))
}

/// The 6845 CRTC: 32 registers, the address register, the internal
/// counters and the light pen latch.
#[derive(Clone, Copy)]
pub struct Crtc {
    pub crtc_type: CrtcType,
    pub registers: [u8; 32],
    pub selected_register: u8,
    pub lpstb_prev: bool,
    pub lpen_full: bool,
    // Internal Counters
    pub c0: u8,
    pub c3l: u8,
    pub c3h: u8,
    pub c4: u8,
    pub c5: u8,
    pub c9: u8,
    pub vma: u16,
    pub vma_prime: u16,
    pub char_row_start_ma: u16,
}

impl Crtc {
    /// Register `i`.
    pub open spec fn reg(&self, i: int) -> u8 {
        self.registers@[i]
    }

    /// The screen start address held in R12 (high byte) and R13 (low
    /// byte), loaded as is into the 16-bit address counters; the MA output
    /// is its low 14 bits.
    pub open spec fn start_address(&self) -> u16 {
        spec_word(self.reg(12), self.reg(13))
    }

    /// The screen start address held in R12/R13.
    pub fn screen_start(&self) -> (r: u16)
        ensures
            r == self.start_address(),
    {
        word(self.registers[12], self.registers[13])
    }

    /// A CRTC of type `crtc_type` freshly reset: registers, address
    /// register, counters and latches all zero.
    pub open spec fn is_reset(&self, crtc_type: CrtcType) -> bool {
        &&& self.crtc_type == crtc_type
        &&& forall|i: int| 0 <= i < 32 ==> #[trigger] self.registers@[i] == 0
        &&& self.selected_register == 0
        &&& !self.lpstb_prev
        &&& !self.lpen_full
        &&& self.c0 == 0
        &&& self.c3l == 0
        &&& self.c3h == 0
        &&& self.c4 == 0
        &&& self.c5 == 0
        &&& self.c9 == 0
        &&& self.vma == 0
        &&& self.vma_prime == 0
        &&& self.char_row_start_ma == 0
    }

    /// Creates a new CRTC defaulting to Type 0 (UM6845 / HD6845S).
    pub fn new() -> (c: Self)
        ensures
            c.is_reset(CrtcType::Type0),
    {
        Self::new_with_type(CrtcType::Type0)
    }

    /// Creates a new CRTC with the specified hardware type.
    pub fn new_with_type(crtc_type: CrtcType) -> (c: Self)
        ensures
            c.is_reset(crtc_type),
    {
        Self {
            crtc_type,
            registers: [0; 32],
            selected_register: 0,
            lpstb_prev: false,
            lpen_full: false,
            c0: 0,
            c3l: 0,
            c3h: 0,
            c4: 0,
            c5: 0,
            c9: 0,
            vma: 0,
            vma_prime: 0,
            char_row_start_ma: 0,
        }
    }

    /// Returns the CRTC hardware type.
    pub fn crtc_type(&self) -> (r: CrtcType)
        ensures
            r == self.crtc_type,
    {
        self.crtc_type
    }

    /// The register index that the address register selects: five bits on
    /// Type 0/1/2, three bits on Type 3/4.
    pub open spec fn spec_selected_register(&self) -> u8 {
        match self.crtc_type {
            CrtcType::Type0 | CrtcType::Type1 | CrtcType::Type2 => self.selected_register & 0x1F,
            CrtcType::Type3 | CrtcType::Type4 => self.selected_register & 0x07,
        }
    }

    /// The ports the CRTC answers a read on: &BFxx always, &BExx on Type 0/1/2.
    pub open spec fn readable_port(&self, addr: u16) -> bool {
        ||| addr >> 8u16 == 0xBF
        ||| (addr >> 8u16 == 0xBE && (self.crtc_type == CrtcType::Type0
            || self.crtc_type == CrtcType::Type1 || self.crtc_type == CrtcType::Type2))
    }

    /// The status register of the Type 1: bit 6 is LPEN_FULL.
    pub open spec fn spec_status(&self) -> u8 {
        if self.lpen_full { 0x40 } else { 0 }
    }

    /// The byte a data read (&BFxx) returns, by type and selected register.
    pub open spec fn spec_register_read(&self) -> u8 {
        let sel = self.spec_selected_register();
        match self.crtc_type {
            CrtcType::Type0 => if 12 <= sel <= 17 { self.reg(sel as int) } else { 0 },
            CrtcType::Type1 => if 14 <= sel <= 17 {
                self.reg(sel as int)
            } else if sel == 31 {
                127
            } else {
                0
            },
            CrtcType::Type2 => if 16 <= sel <= 17 { self.reg(sel as int) } else { 0 },
            CrtcType::Type3 | CrtcType::Type4 => if sel < 2 {
                self.reg(sel + 16)
            } else {
                self.reg(sel + 8)
            },
        }
    }

    /// The byte a read of port `addr` returns.
    pub open spec fn spec_read(&self, addr: u16) -> u8 {
        if addr >> 8u16 == 0xBE {
            match self.crtc_type {
                CrtcType::Type0 => 127,
                CrtcType::Type1 => self.spec_status(),
                _ => 255,
            }
        } else {
            self.spec_register_read()
        }
    }

    /// The state after a read of port `addr`: on a Type 1, reading R16 or
    /// R17 clears LPEN_FULL.
    pub open spec fn spec_after_read(self, addr: u16) -> Crtc {
        if addr >> 8u16 == 0xBF {
            self.spec_after_register_read()
        } else {
            self
        }
    }

    /// The state after a data read: on a Type 1, reading R16 or R17 clears
    /// LPEN_FULL.
    pub open spec fn spec_after_register_read(self) -> Crtc {
        let sel = self.spec_selected_register();
        if self.crtc_type == CrtcType::Type1 && 16 <= sel <= 17 {
            Crtc { lpen_full: false, ..self }
        } else {
            self
        }
    }

    /// Reads from the CRTC at the given I/O address.
    ///
    /// Address decoding (A14 = 0 selects CRTC):
    /// - `&BExx` (A9=1, A8=0): Status register (Type 1) or floating bus.
    /// - `&BFxx` (A9=1, A8=1): Register data read.
    pub fn read(&mut self, addr: u16) -> (r: u8)
        requires
            old(self).readable_port(addr),
        ensures
            r == old(self).spec_read(addr),
            *final(self) == old(self).spec_after_read(addr),
    {
        let hi = addr >> 8u16;
        if hi == 0xBE {
            match self.crtc_type {
                CrtcType::Type0 => 127,
                CrtcType::Type1 => self.status_read(),
                _ => 255,
            }
        } else {
            self.register_read()
        }
    }

    /// The ports the CRTC answers a write on: &BCxx (select) and &BDxx
    /// (data).
    pub open spec fn writable_port(&self, addr: u16) -> bool {
        addr >> 8u16 == 0xBC || addr >> 8u16 == 0xBD
    }

    /// What writing `value` to the selected register does: the register is
    /// the one the low five bits of the address register name; R16/R17 are
    /// read only; a write of R12/R13 at the very start of a frame reloads the
    /// memory address counters with the start address.
    pub open spec fn spec_register_write(self, value: u8, new: Crtc) -> bool {
        let sel = self.selected_register & 0x1F;
        if sel == 16 || sel == 17 {
            new == self
        } else {
            let regs = self.registers@.update(sel as int, value);
            let start = spec_word(regs[12], regs[13]);
            &&& new.registers@ == regs
            &&& if self.c0 == 0 && self.c4 == 0 && self.c9 == 0 && (sel == 12 || sel == 13) {
                new == Crtc {
                    registers: new.registers,
                    vma_prime: start,
                    vma: start,
                    char_row_start_ma: start,
                    ..self
                }
            } else {
                new == Crtc { registers: new.registers, ..self }
            }
        }
    }

    /// What writing `value` to port `addr` does.
    pub open spec fn spec_write(self, addr: u16, value: u8, new: Crtc) -> bool {
        if addr >> 8u16 == 0xBC {
            new == Crtc { selected_register: value, ..self }
        } else {
            self.spec_register_write(value, new)
        }
    }

    /// Writes to the CRTC at the given I/O address.
    ///
    /// Address decoding (A14 = 0 selects CRTC):
    /// - `&BCxx` (A9=0, A8=0): Register Select — writes to the Address Register.
    /// - `&BDxx` (A9=0, A8=1): Register Data Write — writes to the selected register.
    pub fn write(&mut self, addr: u16, value: u8)
        requires
            old(self).writable_port(addr),
        ensures
            old(self).spec_write(addr, value, *final(self)),
    {
        if addr >> 8u16 == 0xBC {
            self.register_select(value);
        } else {
            self.register_write(value);
        }
    }

    /// Returns the currently selected register index (internal Address Register).
    /// On Type 0/1/2 this is 5 bits (0–31).
    /// On Type 3/4 this is 3 bits (0–7).
    pub fn selected_register(&self) -> (r: u8)
        ensures
            r == self.spec_selected_register(),
            r < 32,
            (self.crtc_type == CrtcType::Type3 || self.crtc_type == CrtcType::Type4) ==> r < 8,
    {
        let s = self.selected_register;
        assert(s & 0x1F < 32 && s & 0x07 < 8) by (bit_vector);
        match self.crtc_type {
            CrtcType::Type0 | CrtcType::Type1 | CrtcType::Type2 => s & 0x1F,
            CrtcType::Type3 | CrtcType::Type4 => s & 0x07,
        }
    }

    /// Read parameter byte from the currently selected register.
    pub fn register_read(&mut self) -> (r: u8)
        ensures
            r == old(self).spec_register_read(),
            *final(self) == old(self).spec_after_register_read(),
    {
        let sel = self.selected_register();
        match self.crtc_type {
            CrtcType::Type0 => if 12 <= sel && sel <= 17 {
                self.registers[sel as usize]
            } else {
                0
            },
            CrtcType::Type1 => if 14 <= sel && sel <= 15 {
                self.registers[sel as usize]
            } else if 16 <= sel && sel <= 17 {
                self.lpen_full = false;
                self.registers[sel as usize]
            } else if sel == 31 {
                127
            } else {
                0
            },
            CrtcType::Type2 => if 16 <= sel && sel <= 17 {
                self.registers[sel as usize]
            } else {
                0
            },
            CrtcType::Type3 | CrtcType::Type4 => {
                let idx = sel as usize;
                self.registers[if idx < 2 { idx + 16 } else { idx + 8 }]
            },
        }
    }

    /// Write parameter byte to the currently selected register.
    pub fn register_write(&mut self, value: u8)
        ensures
            old(self).spec_register_write(value, *final(self)),
    {
        let raw = self.selected_register;
        let sel = raw & 0x1F;
        assert(raw & 0x1F < 32) by (bit_vector);
        if sel == 16 || sel == 17 {
            return;
        }
        self.registers[sel as usize] = value;
        if self.c0 == 0 && self.c4 == 0 && self.c9 == 0 && (sel == 12 || sel == 13) {
            let start = self.screen_start();
            self.vma_prime = start;
            self.vma = start;
            self.char_row_start_ma = start;
        }
    }

    /// Write a register index (0 to 31) to the selected register.
    pub fn register_select(&mut self, value: u8)
        ensures
            *final(self) == (Crtc { selected_register: value, ..*old(self) }),
    {
        self.selected_register = value;
    }

    /// The status register of the Type 1 (bit 6: LPEN_FULL).
    pub fn status_read(&self) -> (r: u8)
        requires
            self.crtc_type == CrtcType::Type1,
        ensures
            r == self.spec_status(),
    {
        if self.lpen_full { 0x40 } else { 0 }
    }

    /// Returns the raw value stored in the internal register at `idx` (0–31).
    /// This bypasses read-port masking / readability rules and returns the
    /// full 8-bit latch value as written.
    pub fn register(&self, idx: u8) -> (r: u8)
        requires
            idx < 32,
        ensures
            r == self.reg(idx as int),
    {
        self.registers[idx as usize]
    }

    // ------------------------------------------------------------------
    // One character clock, in four steps.
    // ------------------------------------------------------------------
    /// Whether the horizontal counter freezes (Type 0 with R0 = 0).
    pub open spec fn c0_frozen(&self) -> bool {
        self.crtc_type == CrtcType::Type0 && self.reg(0) == 0
    }

    /// Step 1 of a clock: C0, then C9/C4/C5 at the end of a line, with the
    /// frame restart (VMA' and the row start reloaded from R12/R13).
    pub open spec fn spec_tick_counters(self) -> Crtc {
        if self.c0_frozen() || self.c0 + 1 != self.reg(0) + 1 {
            if self.c0_frozen() { self } else { Crtc { c0: (self.c0 + 1) as u8, ..self } }
        } else if self.c4 < self.reg(4) + 1 {
            if self.c9 + 1 == self.reg(9) + 1 {
                let c4 = self.c4 + 1;
                if c4 == self.reg(4) + 1 && self.reg(5) == 0 {
                    Crtc {
                        c0: 0,
                        c9: 0,
                        c4: 0,
                        vma_prime: self.start_address(),
                        char_row_start_ma: self.start_address(),
                        ..self
                    }
                } else {
                    Crtc { c0: 0, c9: 0, c4: c4 as u8, char_row_start_ma: self.vma, ..self }
                }
            } else {
                Crtc { c0: 0, c9: (self.c9 + 1) as u8, ..self }
            }
        } else if self.c5 + 1 >= self.reg(5) {
            Crtc {
                c0: 0,
                c4: 0,
                c5: 0,
                c9: 0,
                vma_prime: self.start_address(),
                char_row_start_ma: self.start_address(),
                ..self
            }
        } else {
            Crtc { c0: 0, c5: (self.c5 + 1) as u8, ..self }
        }
    }

    /// Step 1 stays within the 8-bit counters and registers.
    pub open spec fn counters_fit(&self) -> bool {
        self.c0_frozen() || {
            &&& self.c0 < 255
            &&& self.reg(0) < 255
            &&& self.c0 + 1 == self.reg(0) + 1 ==> {
                &&& self.reg(4) < 255
                &&& self.c4 < self.reg(4) + 1 ==> {
                    &&& self.c9 < 255
                    &&& self.reg(9) < 255
                    &&& self.c9 + 1 == self.reg(9) + 1 ==> self.c4 < 255
                }
                &&& self.c4 >= self.reg(4) + 1 ==> self.c5 < 255
            }
        }
    }

    /// The HSYNC pulse width: R3 low nibble, where 0 means no pulse on
    /// Type 0/1 and 16 on Type 2/3/4.
    pub open spec fn hsync_width(&self) -> u8 {
        if self.reg(3) & 0x0F == 0 {
            match self.crtc_type {
                CrtcType::Type0 | CrtcType::Type1 => 0,
                _ => 16,
            }
        } else {
            self.reg(3) & 0x0F
        }
    }

    /// Step 2 of a clock: the HSYNC counter.
    pub open spec fn spec_tick_hsync(self) -> Crtc {
        let c3l = if self.c0 == self.reg(2) {
            1
        } else if self.c3l > 0 {
            self.c3l + 1
        } else {
            self.c3l as int
        };
        Crtc { c3l: if c3l == self.hsync_width() + 1 { 0 } else { c3l as u8 }, ..self }
    }

    /// Step 2 stays within the 8-bit HSYNC counter.
    pub open spec fn hsync_fits(&self) -> bool {
        self.c0 != self.reg(2) && self.c3l > 0 ==> self.c3l < 255
    }

    /// The VSYNC pulse width in lines: 16 on Type 1/2; R3 high nibble
    /// (0 meaning 16) on Type 0/3/4.
    pub open spec fn vsync_width(&self) -> u8 {
        match self.crtc_type {
            CrtcType::Type1 | CrtcType::Type2 => 16,
            _ => if self.reg(3) >> 4u8 == 0 { 16 } else { self.reg(3) >> 4u8 },
        }
    }

    /// Step 3 of a clock: the VSYNC counter, stepped at the start of a line.
    pub open spec fn spec_tick_vsync(self) -> Crtc {
        if self.c0 == 0 {
            let c3h = if self.c4 == self.reg(7) && self.c9 == 0 {
                1
            } else if self.c3h > 0 {
                self.c3h + 1
            } else {
                self.c3h as int
            };
            Crtc { c3h: if c3h == self.vsync_width() + 1 { 0 } else { c3h as u8 }, ..self }
        } else {
            self
        }
    }

    /// Step 3 stays within the 8-bit VSYNC counter.
    pub open spec fn vsync_fits(&self) -> bool {
        self.c0 == 0 && !(self.c4 == self.reg(7) && self.c9 == 0) && self.c3h > 0 ==> self.c3h
            < 255
    }

    /// Step 4 of a clock: the memory address (VMA reloaded from VMA' at the
    /// start of a line, else counting up in 16 bits; VMA' latched at the
    /// last displayed character of the last line of a row).
    pub open spec fn spec_tick_address(self) -> Crtc {
        if self.c0 == 0 {
            Crtc { vma: self.vma_prime, ..self }
        } else {
            let vma = ((self.vma + 1) % 0x10000) as u16;
            if self.c0 == self.reg(1) && self.c9 == self.reg(9) {
                Crtc { vma, vma_prime: vma, ..self }
            } else {
                Crtc { vma, ..self }
            }
        }
    }

    /// The CRTC after one character clock.
    pub open spec fn spec_tick(self) -> Crtc {
        self.spec_tick_counters().spec_tick_hsync().spec_tick_vsync().spec_tick_address()
    }

    /// One character clock stays within the widths of the counters.
    pub open spec fn tick_fits(&self) -> bool {
        let a = self.spec_tick_counters();
        let b = a.spec_tick_hsync();
        &&& self.counters_fit()
        &&& a.hsync_fits()
        &&& b.vsync_fits()
    }

    /// Advances the CRTC by exactly one character clock (CCLK).
    ///
    /// After this call:
    /// - All internal counters (C0, C9, C4, C5, MA, VMA, VMA') have been
    ///   updated for the new CCLK.
    /// - All output pins (HSYNC, VSYNC, DISPEN, CURSOR) reflect the new state.
    pub fn tick(&mut self)
        requires
            old(self).tick_fits(),
        ensures
            *final(self) == old(self).spec_tick(),
    {
        self.tick_counters();
        self.tick_hsync();
        self.tick_vsync();
        self.tick_address();
    }

    /// Whether `tick` may run now: one character clock keeps every
    /// counter within its 8-bit width.
    pub fn check_tick(&self) -> (r: bool)
        ensures
            r == self.tick_fits(),
    {
        if !self.check_counters() {
            return false;
        }
        let mut next = *self;
        next.tick_counters();
        if !next.check_hsync() {
            return false;
        }
        next.tick_hsync();
        next.check_vsync()
    }

    fn check_counters(&self) -> (r: bool)
        ensures
            r == self.counters_fit(),
    {
        let r0 = self.registers[0];
        let r4 = self.registers[4];
        let r9 = self.registers[9];
        if self.crtc_type == CrtcType::Type0 && r0 == 0 {
            true
        } else if self.c0 == 255 || r0 == 255 {
            false
        } else if self.c0 != r0 {
            true
        } else if r4 == 255 {
            false
        } else if self.c4 <= r4 {
            self.c9 < 255 && r9 < 255 && (self.c9 != r9 || self.c4 < 255)
        } else {
            self.c5 < 255
        }
    }

    fn check_hsync(&self) -> (r: bool)
        ensures
            r == self.hsync_fits(),
    {
        !(self.c0 != self.registers[2] && self.c3l > 0) || self.c3l < 255
    }

    fn check_vsync(&self) -> (r: bool)
        ensures
            r == self.vsync_fits(),
    {
        !(self.c0 == 0 && !(self.c4 == self.registers[7] && self.c9 == 0) && self.c3h > 0)
            || self.c3h < 255
    }

    /// Whether a read of `addr` is answered (see `readable_port`).
    pub fn check_readable_port(&self, addr: u16) -> (r: bool)
        ensures
            r == self.readable_port(addr),
    {
        let hi = addr >> 8u16;
        hi == 0xBF || (hi == 0xBE && (self.crtc_type == CrtcType::Type0
            || self.crtc_type == CrtcType::Type1 || self.crtc_type == CrtcType::Type2))
    }

    /// Whether a write of `addr` is answered (see `writable_port`).
    pub fn check_writable_port(&self, addr: u16) -> (r: bool)
        ensures
            r == self.writable_port(addr),
    {
        let hi = addr >> 8u16;
        hi == 0xBC || hi == 0xBD
    }

    fn tick_counters(&mut self)
        requires
            old(self).counters_fit(),
        ensures
            *final(self) == old(self).spec_tick_counters(),
    {
        let c0_wraps = if self.crtc_type == CrtcType::Type0 && self.registers[0] == 0 {
            false  // Type 0 with R0=0: freeze, never wrap
        } else {
            self.c0 += 1;
            self.c0 == self.registers[0] + 1
        };
        if c0_wraps {
            self.c0 = 0;
            if self.c4 < self.registers[4] + 1 {
                // Normal character row period
                self.c9 += 1;
                if self.c9 == self.registers[9] + 1 {
                    self.c9 = 0;
                    self.c4 += 1;
                    self.char_row_start_ma = self.vma;
                    if self.c4 == self.registers[4] + 1 && self.registers[5] == 0 {
                        // No vertical adjust: frame ends now
                        self.c4 = 0;
                        self.vma_prime = self.screen_start();
                        self.char_row_start_ma = self.vma_prime;
                    }
                }
            } else {
                // Vertical adjust period: C5 counts individual scanlines
                if self.c5 + 1 >= self.registers[5] {
                    // Frame end
                    self.c4 = 0;
                    self.c5 = 0;
                    self.c9 = 0;
                    self.vma_prime = self.screen_start();
                    self.char_row_start_ma = self.vma_prime;
                } else {
                    self.c5 += 1;
                }
            }
        }
    }

    fn tick_hsync(&mut self)
        requires
            old(self).hsync_fits(),
        ensures
            *final(self) == old(self).spec_tick_hsync(),
    {
        if self.c0 == self.registers[2] {
            self.c3l = 1;
        } else if self.c3l > 0 {
            self.c3l += 1;
        }
        let r3 = self.registers[3];
        assert(r3 & 0x0F <= 15) by (bit_vector);
        let width = if (r3 & 0x0F) == 0 {
            match self.crtc_type {
                CrtcType::Type0 | CrtcType::Type1 => 0,
                _ => 16,
            }
        } else {
            r3 & 0x0F
        };
        if self.c3l == width + 1 {
            self.c3l = 0;
        }
    }

    fn tick_vsync(&mut self)
        requires
            old(self).vsync_fits(),
        ensures
            *final(self) == old(self).spec_tick_vsync(),
    {
        if self.c0 == 0 {
            if self.c4 == self.registers[7] && self.c9 == 0 {
                self.c3h = 1;
            } else if self.c3h > 0 {
                self.c3h += 1;
            }
            let r3 = self.registers[3];
            assert(r3 >> 4u8 <= 15) by (bit_vector);
            let width = match self.crtc_type {
                CrtcType::Type1 | CrtcType::Type2 => 16,
                _ => if (r3 >> 4u8) == 0 { 16 } else { r3 >> 4u8 },
            };
            if self.c3h == width + 1 {
                self.c3h = 0;
            }
        }
    }

    fn tick_address(&mut self)
        ensures
            *final(self) == old(self).spec_tick_address(),
    {
        if self.c0 == 0 {
            self.vma = self.vma_prime;
        } else {
            self.vma = if self.vma == 0xFFFF { 0 } else { self.vma + 1 };
            if self.c0 == self.registers[1] && self.c9 == self.registers[9] {
                self.vma_prime = self.vma;
            }
        }
    }

    /// Returns the current HSYNC output pin state (active high).
    pub fn hsync(&self) -> (r: bool)
        ensures
            r == (self.c3l != 0),
    {
        self.c3l != 0
    }

    /// Returns the current VSYNC output pin state (active high).
    pub fn vsync(&self) -> (r: bool)
        ensures
            r == (self.c3h != 0),
    {
        self.c3h != 0
    }

    /// Display enable: inside the displayed columns (C0 < R1) and rows
    /// (C4 < R6), unless R8 bits 4-5 are both set (display disabled).
    pub open spec fn spec_dispen(&self) -> bool {
        if (self.reg(8) >> 4u8) & 0x03 == 0x03 {
            false
        } else {
            self.c0 < self.reg(1) && self.c4 < self.reg(6)
        }
    }

    /// Returns the current Display Enable output state.
    pub fn dispen(&self) -> (r: bool)
        ensures
            r == self.spec_dispen(),
    {
        if ((self.registers[8] >> 4u8) & 0x03) == 0x03 {
            return false;
        }
        self.c0 < self.registers[1] && self.c4 < self.registers[6]
    }

    /// Cursor output: the row start address equals R14/R15 and the raster
    /// lies between R10 and R11 (low nibbles); off when R1 = 0 or when
    /// R10 bits 5-6 select the "no cursor" mode (01).
    pub open spec fn spec_cursor(&self) -> bool {
        if self.reg(1) == 0 {
            false
        } else if (self.reg(10) >> 5u8) & 0x03 == 0x01 {
            false
        } else {
            &&& self.char_row_start_ma == spec_word(self.reg(14), self.reg(15))
            &&& self.c9 >= self.reg(10) & 0x0F
            &&& self.c9 <= self.reg(11) & 0x0F
        }
    }

    /// Returns the current Cursor output state.
    pub fn cursor(&self) -> (r: bool)
        ensures
            r == self.spec_cursor(),
    {
        if self.registers[1] == 0 {
            return false;
        }
        let mode = (self.registers[10] >> 5u8) & 0x03;
        if mode == 0x01 {
            return false;
        }
        let cursor_start = self.registers[10] & 0x0F;
        let cursor_end = self.registers[11] & 0x0F;
        let cursor_position = word(self.registers[14], self.registers[15]);
        self.char_row_start_ma == cursor_position && self.c9 >= cursor_start && self.c9
            <= cursor_end
    }

    /// Returns the current 14-bit memory address (MA) being output: the low
    /// 14 bits of the address counter.
    pub fn current_ma(&self) -> (r: u16)
        ensures
            r == self.vma % 0x4000,
            r < 0x4000,
    {
        self.vma % 0x4000
    }

    /// Returns the current raster address output (RA0–RA4).
    pub fn current_raster(&self) -> (r: u8)
        ensures
            r == self.c9,
    {
        self.c9
    }

    /// Returns the horizontal character counter (C0).
    pub fn c0(&self) -> (r: u8)
        ensures
            r == self.c0,
    {
        self.c0
    }

    /// Returns the vertical character row counter (C4).
    pub fn c4(&self) -> (r: u8)
        ensures
            r == self.c4,
    {
        self.c4
    }

    /// Returns the raster counter (C9).
    pub fn c9(&self) -> (r: u8)
        ensures
            r == self.c9,
    {
        self.c9
    }

    /// Returns the vertical total adjust counter (C5).
    pub fn c5(&self) -> (r: u8)
        ensures
            r == self.c5,
    {
        self.c5
    }

    /// HSC (Horizontal Sync Counter): counts characters inside an HSYNC pulse.
    pub fn c3l(&self) -> (r: u8)
        ensures
            r == self.c3l,
    {
        self.c3l
    }

    /// VSC (Vertical Sync Counter): counts lines inside a VSYNC pulse.
    pub fn c3h(&self) -> (r: u8)
        ensures
            r == self.c3h,
    {
        self.c3h
    }

    /// Returns the current VMA (active display memory pointer).
    pub fn vma(&self) -> (r: u16)
        ensures
            r == self.vma,
    {
        self.vma
    }

    /// Returns the current VMA' (line-start memory pointer).
    pub fn vma_prime(&self) -> (r: u16)
        ensures
            r == self.vma_prime,
    {
        self.vma_prime
    }

    /// What the light pen strobe level `value` does: a rising edge latches
    /// the current MA into R16 (high byte) and R17 (low byte) and sets
    /// LPEN_FULL.
    pub open spec fn spec_lpstb(self, value: bool, new: Crtc) -> bool {
        if value && !self.lpstb_prev {
            &&& new == Crtc { registers: new.registers, lpen_full: true, lpstb_prev: value, ..self }
            &&& new.registers@ == self.registers@.update(16, (self.vma / 256) as u8).update(
                17,
                (self.vma % 256) as u8,
            )
        } else {
            new == Crtc { lpstb_prev: value, ..self }
        }
    }

    /// Sets the light pen strobe (LPSTB) input.
    /// A low-to-high transition (rising edge) captures the current MA into
    /// R16 (high byte) and R17 (low byte), and sets the LPEN_FULL flag.
    pub fn lpstb(&mut self, value: bool)
        ensures
            old(self).spec_lpstb(value, *final(self)),
    {
        if value && !self.lpstb_prev {
            let ma = self.vma;
            assert((ma >> 8u16) as u8 == ma / 256 && (ma & 0xFF) as u8 == ma % 256) by (bit_vector);
            self.registers[16] = (ma >> 8u16) as u8;
            self.registers[17] = (ma & 0xFF) as u8;
            self.lpen_full = true;
        }
        self.lpstb_prev = value;
    }

    /// Performs a hardware reset of the CRTC.
    /// Clears all internal registers, counters, and output pins.
    pub fn reset(&mut self)
        ensures
            final(self).is_reset(old(self).crtc_type),
    {
        *self = Self::new_with_type(self.crtc_type);
    }

    /// The screen address for the current MA and raster line.
    pub fn phys_address(&self) -> (r: u16)
        ensures
            r == spec_phys_address(self.vma, self.c9),
    {
        Self::phys_address_for(self.vma, self.current_raster())
    }

    /// The screen address for memory address `ma` and raster line `raster`.
    pub fn phys_address_for(ma: u16, raster: u8) -> (r: u16)
        ensures
            r == spec_phys_address(ma, raster),
    {
        (ma & 0x3FF) << 1u16 | (((raster as u16) & 0x07) << 11u16) | ((ma & 0x3000) << 2u16)
    }
}

impl Default for Crtc {
    fn default() -> (r: Self)
        ensures
            r.is_reset(CrtcType::Type0),
    {
        Self::new()
    }
}

/// A register written through the select and data ports reads back
/// through the data port: R12-R15 on Type 0, R14-R15 on Type 1, and R12-R15
/// on Type 3/4 (which read them back at the 3-bit indexes 4-7).
pub proof fn law_register_round_trip(c: Crtc, c1: Crtc, c2: Crtc, c3: Crtc, reg: u8, value: u8)
    requires
        match c.crtc_type {
            CrtcType::Type0 | CrtcType::Type3 | CrtcType::Type4 => 12 <= reg <= 15,
            CrtcType::Type1 => 14 <= reg <= 15,
            CrtcType::Type2 => false,
        },
        c.spec_write(0xBC00, reg, c1),
        c1.spec_write(0xBD00, value, c2),
        c2.spec_write(0xBC00, reg, c3),
    ensures
        c3.spec_read(0xBF00) == value,
        c3.reg(reg as int) == value,
{
    assert(0xBC00u16 >> 8u16 == 0xBC && 0xBD00u16 >> 8u16 == 0xBD && 0xBF00u16 >> 8u16 == 0xBF)
        by (bit_vector);
    assert(reg & 0x1F == reg && (reg & 0x07) + 8 == reg) by (bit_vector)
        requires
            12 <= reg <= 15,
    ;
}

/// The light pen registers R16/R17 are read only: a data write to them
/// changes nothing.
pub proof fn law_light_pen_registers_read_only(c: Crtc, value: u8, new: Crtc)
    requires
        c.selected_register & 0x1F == 16 || c.selected_register & 0x1F == 17,
        c.spec_write(0xBD00, value, new),
    ensures
        new == c,
{
    assert(0xBD00u16 >> 8u16 == 0xBD) by (bit_vector);
}

/// The screen address is even, fits in 16 bits with room for the second
/// byte, and takes the raster line (0-7) as its bits 11-13.
pub proof fn law_phys_address_layout(ma: u16, raster: u8)
    ensures
        spec_phys_address(ma, raster) % 2 == 0,
        spec_phys_address(ma, raster) <= 0xFFFE,
        (spec_phys_address(ma, raster) >> 11u16) & 0x07 == (raster as u16) & 0x07,
{
    assert(((((ma & 0x3FF) << 1u16) | (((raster as u16) & 0x07) << 11u16) | ((ma & 0x3000) << 2u16))
        % 2 == 0) && ((((ma & 0x3FF) << 1u16) | (((raster as u16) & 0x07) << 11u16) | ((ma & 0x3000)
        << 2u16)) <= 0xFFFE) && ((((((ma & 0x3FF) << 1u16) | (((raster as u16) & 0x07) << 11u16) | ((ma
        & 0x3000) << 2u16))) >> 11u16) & 0x07 == (raster as u16) & 0x07)) by (bit_vector);
}

/// The CRTC after `n` character clocks.
pub open spec fn ticks(c: Crtc, n: nat) -> Crtc
    decreases n,
{
    if n == 0 {
        c
    } else {
        ticks(c, (n - 1) as nat).spec_tick()
    }
}

/// Horizontal timing: from the start of a line, the character counter C0
/// counts the clocks up to R0 and wraps to 0 on clock R0 + 1, with the
/// registers, the type and the row counters C4/C5 of the line untouched until
/// then (Type 0 with R0 = 0 freezes C0 instead).
pub proof fn law_horizontal_period(c: Crtc, n: nat)
    requires
        c.c0 == 0,
        !c.c0_frozen(),
        c.reg(0) < 255,
        n <= c.reg(0) + 1,
    ensures
        ticks(c, n).registers == c.registers,
        ticks(c, n).crtc_type == c.crtc_type,
        n <= c.reg(0) ==> ticks(c, n).c0 == n && ticks(c, n).c9 == c.c9 && ticks(c, n).c4 == c.c4
            && ticks(c, n).c5 == c.c5,
        n == c.reg(0) + 1 ==> ticks(c, n).c0 == 0,
    decreases n,
{
    if n > 0 {
        law_horizontal_period(c, (n - 1) as nat);
    }
}

/// A Type 0 CRTC with R0 = 0 holds C0 at 0 on every clock.
pub proof fn law_frozen_c0(c: Crtc, n: nat)
    requires
        c.c0 == 0,
        c.c0_frozen(),
    ensures
        ticks(c, n).c0 == 0,
        ticks(c, n).registers == c.registers,
        ticks(c, n).crtc_type == c.crtc_type,
    decreases n,
{
    if n > 0 {
        law_frozen_c0(c, (n - 1) as nat);
    }
}

/// The vertical counters (C9, C4, C5) after the line `c` is on ends: the
/// raster counts up to R9, then the row counter up to R4; the vertical
/// adjust lines (C5) follow when R5 is not zero; then the frame restarts.
pub open spec fn line_end(c: Crtc) -> (u8, u8, u8) {
    if c.c4 < c.reg(4) + 1 {
        if c.c9 + 1 == c.reg(9) + 1 {
            let c4 = c.c4 + 1;
            if c4 == c.reg(4) + 1 && c.reg(5) == 0 {
                (0, 0, c.c5)
            } else {
                (0, c4 as u8, c.c5)
            }
        } else {
            ((c.c9 + 1) as u8, c.c4, c.c5)
        }
    } else if c.c5 + 1 >= c.reg(5) {
        (0, 0, 0)
    } else {
        (c.c9, c.c4, (c.c5 + 1) as u8)
    }
}

/// The clocks of one frame: (R4 + 1) rows of (R9 + 1) lines, then R5
/// adjust lines, each line R0 + 1 clocks.
pub open spec fn frame_clocks(c: Crtc) -> nat {
    (((c.reg(4) + 1) * (c.reg(9) + 1) + c.reg(5)) * (c.reg(0) + 1)) as nat
}

/// Clocks run in two stretches are the clocks run at once.
proof fn lemma_ticks_add(c: Crtc, a: nat, b: nat)
    ensures
        ticks(c, a + b) == ticks(ticks(c, a), b),
    decreases b,
{
    if b > 0 {
        lemma_ticks_add(c, a, (b - 1) as nat);
        assert(ticks(c, a + b) == ticks(c, (a + (b - 1)) as nat).spec_tick());
    }
}

/// One whole line: R0 + 1 clocks from its start bring C0 back to 0 and
/// move the vertical counters on by one line.
proof fn lemma_line(c: Crtc)
    requires
        c.c0 == 0,
        !c.c0_frozen(),
        c.reg(0) < 255,
    ensures
        ({
            let e = ticks(c, (c.reg(0) + 1) as nat);
            &&& e.c0 == 0
            &&& e.registers == c.registers
            &&& e.crtc_type == c.crtc_type
            &&& (e.c9, e.c4, e.c5) == line_end(c)
        }),
{
    law_horizontal_period(c, c.reg(0) as nat);
    let d = ticks(c, c.reg(0) as nat);
    assert(ticks(c, (c.reg(0) + 1) as nat) == d.spec_tick());
    assert(line_end(d) == line_end(c));
}

/// The lines of one character row: from the row's first line, `j` lines
/// later the raster counter reads `j`; after R9 + 1 lines the next row
/// starts (or the frame restarts after the last row when R5 is 0).
proof fn lemma_row(c: Crtc, j: nat)
    requires
        c.c0 == 0,
        c.c9 == 0,
        c.c5 == 0,
        c.c4 <= c.reg(4),
        !c.c0_frozen(),
        c.reg(0) < 255,
        c.reg(4) < 255,
        c.reg(9) < 255,
        j <= c.reg(9) + 1,
    ensures
        ({
            let e = ticks(c, j * (c.reg(0) + 1) as nat);
            &&& e.c0 == 0
            &&& e.c5 == 0
            &&& e.registers == c.registers
            &&& e.crtc_type == c.crtc_type
            &&& j <= c.reg(9) ==> e.c9 == j && e.c4 == c.c4
            &&& j == c.reg(9) + 1 ==> e.c9 == 0 && e.c4 == (if c.c4 + 1 == c.reg(4) + 1 && c.reg(5)
                == 0 {
                0
            } else {
                c.c4 + 1
            })
        }),
    decreases j,
{
    let w = (c.reg(0) + 1) as nat;
    if j == 0 {
        assert(j * w == 0) by (nonlinear_arith)
            requires
                j == 0,
        ;
    } else {
        lemma_row(c, (j - 1) as nat);
        let a = ((j - 1) * w) as nat;
        assert(a + w == j * w) by (nonlinear_arith)
            requires
                a == (j - 1) * w,
                j > 0,
        ;
        lemma_ticks_add(c, a, w);
        let d = ticks(c, a);
        lemma_line(d);
    }
}

/// The rows of one frame: from the frame start, `r` rows later the row
/// counter reads `r`; after R4 + 1 rows the adjust lines start, or the
/// frame restarts when R5 is 0.
proof fn lemma_rows(c: Crtc, r: nat)
    requires
        c.c0 == 0,
        c.c9 == 0,
        c.c4 == 0,
        c.c5 == 0,
        !c.c0_frozen(),
        c.reg(0) < 255,
        c.reg(4) < 255,
        c.reg(9) < 255,
        r <= c.reg(4) + 1,
    ensures
        ({
            let e = ticks(c, (r * (c.reg(9) + 1) * (c.reg(0) + 1)) as nat);
            &&& e.c0 == 0
            &&& e.c9 == 0
            &&& e.c5 == 0
            &&& e.registers == c.registers
            &&& e.crtc_type == c.crtc_type
            &&& r <= c.reg(4) ==> e.c4 == r
            &&& r == c.reg(4) + 1 ==> e.c4 == (if c.reg(5) == 0 {
                0
            } else {
                c.reg(4) + 1
            })
        }),
    decreases r,
{
    let w = (c.reg(0) + 1) as nat;
    let rows = (c.reg(9) + 1) as nat;
    if r == 0 {
        assert(r * rows * w == 0) by (nonlinear_arith)
            requires
                r == 0,
        ;
    } else {
        lemma_rows(c, (r - 1) as nat);
        let a = ((r - 1) * rows * w) as nat;
        let b = (rows * w) as nat;
        assert(a + b == r * rows * w) by (nonlinear_arith)
            requires
                a == (r - 1) * rows * w,
                b == rows * w,
                r > 0,
        ;
        lemma_ticks_add(c, a, b);
        let d = ticks(c, a);
        lemma_row(d, rows);
    }
}

/// The vertical adjust lines: `j` lines into the adjust the C5 counter
/// reads `j`; after R5 lines the frame restarts.
proof fn lemma_adjust(c: Crtc, j: nat)
    requires
        c.c0 == 0,
        c.c9 == 0,
        c.c5 == 0,
        c.c4 == c.reg(4) + 1,
        c.reg(5) > 0,
        !c.c0_frozen(),
        c.reg(0) < 255,
        j <= c.reg(5),
    ensures
        ({
            let e = ticks(c, j * (c.reg(0) + 1) as nat);
            &&& e.c0 == 0
            &&& e.registers == c.registers
            &&& e.crtc_type == c.crtc_type
            &&& j < c.reg(5) ==> e.c5 == j && e.c4 == c.c4 && e.c9 == 0
            &&& j == c.reg(5) ==> e.c5 == 0 && e.c4 == 0 && e.c9 == 0
        }),
    decreases j,
{
    let w = (c.reg(0) + 1) as nat;
    if j == 0 {
        assert(j * w == 0) by (nonlinear_arith)
            requires
                j == 0,
        ;
    } else {
        lemma_adjust(c, (j - 1) as nat);
        let a = ((j - 1) * w) as nat;
        assert(a + w == j * w) by (nonlinear_arith)
            requires
                a == (j - 1) * w,
                j > 0,
        ;
        lemma_ticks_add(c, a, w);
        let d = ticks(c, a);
        lemma_line(d);
    }
}

/// Frame timing: from the start of a frame, with the timing registers
/// left alone, the CRTC returns to the start of a frame (C0, C9, C4 and C5
/// all 0) after ((R4 + 1) * (R9 + 1) + R5) * (R0 + 1) clocks.
pub proof fn law_frame_period(c: Crtc)
    requires
        c.c0 == 0,
        c.c9 == 0,
        c.c4 == 0,
        c.c5 == 0,
        !c.c0_frozen(),
        c.reg(0) < 255,
        c.reg(4) < 255,
        c.reg(9) < 255,
    ensures
        ({
            let e = ticks(c, frame_clocks(c));
            &&& e.c0 == 0
            &&& e.c9 == 0
            &&& e.c4 == 0
            &&& e.c5 == 0
            &&& e.registers == c.registers
        }),
{
    let w = (c.reg(0) + 1) as nat;
    let rows = (c.reg(9) + 1) as nat;
    let r = (c.reg(4) + 1) as nat;
    lemma_rows(c, r);
    let a = (r * rows * w) as nat;
    let b = (c.reg(5) * w) as nat;
    assert(frame_clocks(c) == a + b) by (nonlinear_arith)
        requires
            a == r * rows * w,
            b == c.reg(5) * w,
            r == c.reg(4) + 1,
            rows == c.reg(9) + 1,
            w == c.reg(0) + 1,
            frame_clocks(c) == ((c.reg(4) + 1) * (c.reg(9) + 1) + c.reg(5)) * (c.reg(0) + 1),
    ;
    lemma_ticks_add(c, a, b);
    if c.reg(5) > 0 {
        lemma_adjust(ticks(c, a), c.reg(5) as nat);
    } else {
        assert(b == 0);
    }
}

/// C0, C9, C4 and C5 are all 0: the first clock of a frame.
pub open spec fn at_origin(c: Crtc) -> bool {
    c.c0 == 0 && c.c9 == 0 && c.c4 == 0 && c.c5 == 0
}

/// The counters lie inside the frame that R0, R4, R5 and R9 describe, the
/// sync counters inside their pulse widths, and the counted registers stay
/// below 255 (Type 0 with R0 = 0 freezes instead): C0 up to R0, C9 up to
/// R9, C4 up to R4 with C5 at 0, or C4 at R4 + 1 during the R5 adjust
/// lines with C9 at 0.
pub open spec fn in_frame(c: Crtc) -> bool {
    &&& !c.c0_frozen()
    &&& c.reg(0) < 255
    &&& c.reg(4) < 255
    &&& c.reg(9) < 255
    &&& c.c0 <= c.reg(0)
    &&& c.c9 <= c.reg(9)
    &&& c.c4 <= c.reg(4) + 1
    &&& c.c4 <= c.reg(4) ==> c.c5 == 0
    &&& c.c4 == c.reg(4) + 1 ==> c.c9 == 0 && c.c5 < c.reg(5)
    &&& c.c3l <= c.hsync_width()
    &&& c.c3h <= c.vsync_width()
}

/// The lines of one frame: (R4 + 1) rows of (R9 + 1) lines, then R5
/// adjust lines.
pub open spec fn frame_lines(c: Crtc) -> int {
    (c.reg(4) + 1) * (c.reg(9) + 1) + c.reg(5)
}

/// The line of the frame the counters are on.
pub open spec fn frame_line(c: Crtc) -> int {
    if c.c4 <= c.reg(4) {
        c.c4 * (c.reg(9) + 1) + c.c9
    } else {
        (c.reg(4) + 1) * (c.reg(9) + 1) + c.c5
    }
}

/// The clock of the frame the counters are on, counted from its origin.
pub open spec fn frame_position(c: Crtc) -> int {
    frame_line(c) * (c.reg(0) + 1) + c.c0
}

/// Inside the frame, the line lies before the frame's last line.
proof fn lemma_line_bound(c: Crtc)
    requires
        in_frame(c),
    ensures
        0 <= frame_line(c) < frame_lines(c),
{
    let h = c.reg(9) + 1;
    if c.c4 <= c.reg(4) {
        let c4 = c.c4 as int;
        let r4 = c.reg(4) as int;
        let c9 = c.c9 as int;
        assert(0 <= c4 * h + c9 < (r4 + 1) * h) by (nonlinear_arith)
            requires
                0 <= c4 <= r4,
                0 <= c9 < h,
        ;
    }
}

/// The sync pulse widths are at most 16.
proof fn lemma_widths(c: Crtc)
    ensures
        c.hsync_width() <= 16,
        c.vsync_width() <= 16,
{
    let r3 = c.reg(3);
    assert(r3 & 0x0F <= 15 && r3 >> 4u8 <= 15) by (bit_vector);
}

/// One clock inside the frame: it stays within the counter widths, keeps
/// the registers, stays inside the frame, and moves the frame position on
/// by one, back to 0 after the frame's last clock.
#[verifier::spinoff_prover]
pub proof fn law_tick_in_frame(c: Crtc)
    requires
        in_frame(c),
    ensures
        c.tick_fits(),
        in_frame(c.spec_tick()),
        c.spec_tick().registers == c.registers,
        c.spec_tick().crtc_type == c.crtc_type,
        0 <= frame_position(c) < frame_clocks(c),
        frame_position(c.spec_tick()) == (frame_position(c) + 1) % (frame_clocks(c) as int),
        c.c0 < c.reg(0) ==> c.spec_tick().c0 == c.c0 + 1 && frame_line(c.spec_tick())
            == frame_line(c),
        c.c0 == c.reg(0) ==> c.spec_tick().c0 == 0 && frame_line(c.spec_tick()) == if frame_line(c)
            + 1 < frame_lines(c) {
            frame_line(c) + 1
        } else {
            0
        },
{
    lemma_widths(c);
    lemma_line_bound(c);
    let e = c.spec_tick();
    let a = c.spec_tick_counters();
    assert(e.c0 == a.c0 && e.c9 == a.c9 && e.c4 == a.c4 && e.c5 == a.c5);
    let w = c.reg(0) + 1;
    let h = c.reg(9) + 1;
    let n = frame_lines(c);
    let b = frame_line(c);
    let f = frame_clocks(c) as int;
    assert(f == n * w) by (nonlinear_arith)
        requires
            f == frame_clocks(c),
            frame_clocks(c) == ((c.reg(4) + 1) * (c.reg(9) + 1) + c.reg(5)) * (c.reg(0) + 1),
            n == (c.reg(4) + 1) * (c.reg(9) + 1) + c.reg(5),
            w == c.reg(0) + 1,
            (c.reg(4) + 1) * (c.reg(9) + 1) >= 0,
    ;
    assert(0 <= b * w + c.c0 < f) by (nonlinear_arith)
        requires
            0 <= b < n,
            0 <= c.c0 < w,
            f == n * w,
    ;
    let p = b * w + c.c0;
    if c.c0 == c.reg(0) {
        // The line ends: the counters move to the next line of the frame.
        let b2 = frame_line(e);
        let c4 = c.c4 as int;
        let r4 = c.reg(4) as int;
        assert((c4 + 1) * h == c4 * h + h) by (nonlinear_arith);
        assert((r4 + 1) * h == r4 * h + h) by (nonlinear_arith);
        assert(c4 <= r4 ==> c4 * h <= r4 * h) by (nonlinear_arith)
            requires
                h >= 1,
        ;
        assert(e.registers == c.registers);
        if c.c4 <= c.reg(4) {
            if c.c9 < c.reg(9) {
                assert(a.c9 == c.c9 + 1 && a.c4 == c.c4);
                assert(b2 == b + 1 && b + 1 < n);
            } else if c4 < r4 || c.reg(5) > 0 {
                assert(a.c9 == 0 && a.c4 == c.c4 + 1 && a.c5 == c.c5);
                assert(c4 + 1 <= r4 ==> (c4 + 1) * h <= r4 * h) by (nonlinear_arith)
                    requires
                        h >= 1,
                ;
                if c4 < r4 {
                    assert(b2 == (c4 + 1) * h);
                } else {
                    assert(c4 == r4);
                    assert(b2 == (r4 + 1) * h);
                }
                assert(b2 == b + 1 && b + 1 < n);
            } else {
                assert(at_origin(a));
                assert(e.c4 == 0 && e.c9 == 0);
                assert(e.c4 * h == 0) by (nonlinear_arith)
                    requires
                        e.c4 == 0,
                ;
                assert(b2 == 0 && b + 1 == n);
            }
        } else if c.c5 + 1 >= c.reg(5) {
            assert(at_origin(a));
            assert(e.c4 == 0 && e.c9 == 0);
            assert(e.c4 * h == 0) by (nonlinear_arith)
                requires
                    e.c4 == 0,
            ;
            assert(b2 == 0 && b + 1 == n);
        } else {
            assert(a.c5 == c.c5 + 1 && a.c4 == c.c4 && a.c9 == 0);
            assert(b2 == b + 1 && b + 1 < n);
        }
        if b + 1 < n {
            assert(b2 * w == b * w + w && b * w + w < f) by (nonlinear_arith)
                requires
                    b2 == b + 1,
                    b + 1 < n,
                    f == n * w,
                    w >= 1,
            ;
            vstd::arithmetic::div_mod::lemma_small_mod((p + 1) as nat, f as nat);
        } else {
            assert(b * w + w == f) by (nonlinear_arith)
                requires
                    b + 1 == n,
                    f == n * w,
            ;
            assert(b2 * w == 0) by (nonlinear_arith)
                requires
                    b2 == 0,
            ;
            vstd::arithmetic::div_mod::lemma_mod_self_0(f);
        }
    } else {
        assert(p + 1 < f) by (nonlinear_arith)
            requires
                p == b * w + c.c0,
                0 <= b < n,
                c.c0 + 1 < w,
                f == n * w,
        ;
        vstd::arithmetic::div_mod::lemma_small_mod((p + 1) as nat, f as nat);
    }
}

/// A run of clocks inside the frame: every clock stays within the counter
/// widths and inside the frame, the registers stay as they were, and the
/// frame position advances by one per clock, modulo the frame length.
pub proof fn law_ticks_in_frame(c: Crtc, n: nat)
    requires
        in_frame(c),
    ensures
        in_frame(ticks(c, n)),
        ticks(c, n).tick_fits(),
        ticks(c, n).registers == c.registers,
        ticks(c, n).crtc_type == c.crtc_type,
        frame_position(ticks(c, n)) == (frame_position(c) + n) % (frame_clocks(c) as int),
    decreases n,
{
    law_tick_in_frame(c);
    if n == 0 {
        vstd::arithmetic::div_mod::lemma_small_mod(frame_position(c) as nat, frame_clocks(c));
    } else {
        law_ticks_in_frame(c, (n - 1) as nat);
        let d = ticks(c, (n - 1) as nat);
        law_tick_in_frame(d);
        let f = frame_clocks(c) as int;
        assert(frame_clocks(d) == frame_clocks(c));
        let p = frame_position(c);
        assert(((p + (n - 1)) % f + 1) % f == (p + n) % f) by {
            vstd::arithmetic::div_mod::lemma_add_mod_noop_right(1, p + (n - 1), f);
        }
        assert(ticks(c, n) == d.spec_tick());
    }
    law_tick_in_frame(ticks(c, n));
}

/// Frame origin: inside the frame, the counters are at the origin exactly
/// when the frame position is 0.
proof fn lemma_origin_position(c: Crtc)
    requires
        in_frame(c),
    ensures
        at_origin(c) <==> frame_position(c) == 0,
{
    lemma_line_bound(c);
    let b = frame_line(c);
    let w = c.reg(0) + 1;
    if frame_position(c) == 0 {
        assert(b == 0 && c.c0 == 0) by (nonlinear_arith)
            requires
                b * w + c.c0 == 0,
                b >= 0,
                0 <= c.c0 < w,
        ;
        if c.c4 <= c.reg(4) {
            let c4 = c.c4 as int;
            let h = c.reg(9) + 1;
            assert(c4 == 0) by (nonlinear_arith)
                requires
                    c4 * h + c.c9 == 0,
                    c4 >= 0,
                    h >= 1,
                    c.c9 >= 0,
            ;
        } else {
            let r4 = c.reg(4) as int;
            let h = c.reg(9) + 1;
            assert((r4 + 1) * h >= 1) by (nonlinear_arith)
                requires
                    r4 >= 0,
                    h >= 1,
            ;
        }
    }
}

/// Frame period: from the origin of a frame, with the timing registers
/// left alone and the counters inside the frame, the CRTC is back at the
/// origin after a number of clocks exactly when that number is a multiple
/// of ((R4 + 1) * (R9 + 1) + R5) * (R0 + 1): first after one whole frame,
/// and then once per frame; no clock in between can overflow a counter.
pub proof fn law_origin_once_per_frame(c: Crtc, n: nat)
    requires
        in_frame(c),
        at_origin(c),
    ensures
        at_origin(ticks(c, n)) <==> n % frame_clocks(c) == 0,
        ticks(c, n).tick_fits(),
{
    lemma_origin_position(c);
    law_ticks_in_frame(c, n);
    lemma_origin_position(ticks(c, n));
    law_tick_in_frame(c);
}

/// The line on which VSYNC rises: raster 0 of row R7.
pub open spec fn vsync_line(c: Crtc) -> int {
    c.reg(7) * (c.reg(9) + 1)
}

/// The VSYNC counter C3h on line `l` of the frame: it counts the lines of
/// the pulse from 1, over the `vsync_width` lines from `vsync_line`, and is
/// 0 elsewhere.
pub open spec fn vsync_count(c: Crtc, l: int) -> int {
    let start = vsync_line(c);
    if start <= l < start + c.vsync_width() {
        l - start + 1
    } else {
        0
    }
}

/// The VSYNC pulse lies inside the frame: R7 names a row after the first
/// (1 to R4), and the pulse ends before the frame's last line.
pub open spec fn vsync_in_frame(c: Crtc) -> bool {
    &&& 1 <= c.reg(7) <= c.reg(4)
    &&& vsync_line(c) + c.vsync_width() < frame_lines(c)
}

/// At the start of a line, the row and raster counters name the VSYNC line
/// exactly when the frame line is `vsync_line`.
proof fn lemma_vsync_trigger(y: Crtc)
    requires
        in_frame(y),
        1 <= y.reg(7) <= y.reg(4),
    ensures
        (y.c4 == y.reg(7) && y.c9 == 0) <==> frame_line(y) == vsync_line(y),
{
    let h = y.reg(9) + 1;
    let r7 = y.reg(7) as int;
    let r4 = y.reg(4) as int;
    if y.c4 <= y.reg(4) {
        let c4 = y.c4 as int;
        let c9 = y.c9 as int;
        assert(c4 * h + c9 == r7 * h <==> (c4 == r7 && c9 == 0)) by (nonlinear_arith)
            requires
                0 <= c9 < h,
                c4 >= 0,
                r7 >= 0,
        ;
    } else {
        assert(r7 * h < (r4 + 1) * h) by (nonlinear_arith)
            requires
                r7 <= r4,
                h >= 1,
        ;
    }
}

/// One clock keeps the VSYNC counter in step with the frame line.
proof fn lemma_vsync_step(x: Crtc)
    requires
        in_frame(x),
        vsync_in_frame(x),
        x.c3h == vsync_count(x, frame_line(x)),
    ensures
        x.spec_tick().c3h == vsync_count(x.spec_tick(), frame_line(x.spec_tick())),
{
    law_tick_in_frame(x);
    lemma_line_bound(x);
    let e = x.spec_tick();
    let a = x.spec_tick_counters();
    let b = a.spec_tick_hsync();
    assert(b.c0 == e.c0 && b.c4 == e.c4 && b.c9 == e.c9 && b.c3h == x.c3h);
    assert(b.registers == x.registers && e.registers == x.registers);
    assert(e.c3h == b.spec_tick_vsync().c3h);
    if e.c0 == 0 {
        lemma_vsync_trigger(e);
    }
}

/// VSYNC timing: from the origin of a frame with VSYNC low, the timing
/// registers left alone and the pulse inside the frame, the VSYNC counter
/// on every clock is the one of its frame line, and VSYNC is high exactly
/// from the first clock of line R7 * (R9 + 1) for `vsync_width` lines
/// (16 on Type 1/2; R3 bits 7-4, 0 meaning 16, on Type 0/3/4), in every
/// frame.
pub proof fn law_vsync_window(c: Crtc, n: nat)
    requires
        in_frame(c),
        at_origin(c),
        c.c3h == 0,
        vsync_in_frame(c),
    ensures
        ticks(c, n).c3h == vsync_count(c, frame_line(ticks(c, n))),
        (ticks(c, n).c3h != 0) <==> vsync_line(c) * (c.reg(0) + 1) <= n % frame_clocks(c)
            < (vsync_line(c) + c.vsync_width()) * (c.reg(0) + 1),
    decreases n,
{
    law_ticks_in_frame(c, n);
    let x = ticks(c, n);
    lemma_line_bound(x);
    if n > 0 {
        law_vsync_window(c, (n - 1) as nat);
        let d = ticks(c, (n - 1) as nat);
        law_ticks_in_frame(c, (n - 1) as nat);
        lemma_vsync_step(d);
        assert(x == d.spec_tick());
    } else {
        let h = c.reg(9) + 1;
        let r7 = c.reg(7) as int;
        assert(r7 * h >= 1) by (nonlinear_arith)
            requires
                r7 >= 1,
                h >= 1,
        ;
    }
    let w = c.reg(0) + 1;
    let l = frame_line(x);
    let s = vsync_line(c);
    let t = s + c.vsync_width();
    let q = n % frame_clocks(c);
    lemma_origin_position(c);
    assert(q == l * w + x.c0);
    assert((s <= l < t) <==> (s * w <= l * w + x.c0 < t * w)) by (nonlinear_arith)
        requires
            0 <= x.c0 < w,
            w >= 1,
    ;
}

/// The HSYNC counter C3l at character `k` of a line: it counts the clocks
/// of the pulse from 1, over the `hsync_width` characters from R2, and is 0
/// elsewhere.
pub open spec fn hsync_count(c: Crtc, k: int) -> int {
    if c.reg(2) <= k < c.reg(2) + c.hsync_width() {
        k - c.reg(2) + 1
    } else {
        0
    }
}

/// One clock keeps the HSYNC counter in step with the character counter.
proof fn lemma_hsync_step(x: Crtc)
    requires
        in_frame(x),
        x.reg(2) + x.hsync_width() <= x.reg(0),
        x.c3l == hsync_count(x, x.c0 as int),
    ensures
        x.spec_tick().c3l == hsync_count(x.spec_tick(), x.spec_tick().c0 as int),
{
    law_tick_in_frame(x);
    let e = x.spec_tick();
    let a = x.spec_tick_counters();
    assert(a.c0 == e.c0 && a.c3l == x.c3l && a.registers == x.registers);
    assert(e.c3l == a.spec_tick_hsync().c3l);
}

/// HSYNC timing: inside the frame, with the timing registers left alone
/// and the pulse inside the line (R2 plus the width at most R0), HSYNC is
/// high on the `hsync_width` clocks from C0 = R2 on every line (none on
/// Type 0/1 when R3 bits 3-0 are 0; 16 on Type 2/3/4), and low elsewhere.
pub proof fn law_hsync_window(c: Crtc, n: nat)
    requires
        in_frame(c),
        c.reg(2) + c.hsync_width() <= c.reg(0),
        c.c3l == hsync_count(c, c.c0 as int),
    ensures
        ticks(c, n).c3l == hsync_count(c, ticks(c, n).c0 as int),
        (ticks(c, n).c3l != 0) <==> c.reg(2) <= ticks(c, n).c0 < c.reg(2) + c.hsync_width(),
    decreases n,
{
    law_ticks_in_frame(c, n);
    if n > 0 {
        law_hsync_window(c, (n - 1) as nat);
        let d = ticks(c, (n - 1) as nat);
        law_ticks_in_frame(c, (n - 1) as nat);
        lemma_hsync_step(d);
        assert(ticks(c, n) == d.spec_tick());
    }
}

} // verus!
