use vstd::prelude::*;

verus! {

/// The 27 colours of the hardware palette.
#[derive(Clone, Copy, Debug, PartialEq, Eq, Structural)]
pub enum Palette {
    White,
    SeaGreen,
    PastelYellow,
    Blue,
    Purple,
    Cyan,
    Pink,
    BrightYellow,
    BrightWhite,
    BrightRed,
    BrightMagenta,
    Orange,
    PastelMagenta,
    BrightGreen,
    BrightCyan,
    Black,
    BrightBlue,
    Green,
    SkyBlue,
    Magenta,
    PastelGreen,
    Lime,
    PastelCyan,
    Red,
    Mauve,
    Yellow,
    PastelBlue,
}

/// The colour that a 5-bit hardware colour number selects
/// (numbers 1, 8, 9, 16 and 17 duplicate other colours).
pub open spec fn spec_palette_from(idx: u8) -> Palette
    recommends
        idx < 32,
{
    match idx {
        0 => Palette::White,
        1 => Palette::White,
        2 => Palette::SeaGreen,
        3 => Palette::PastelYellow,
        4 => Palette::Blue,
        5 => Palette::Purple,
        6 => Palette::Cyan,
        7 => Palette::Pink,
        8 => Palette::Purple,
        9 => Palette::PastelYellow,
        10 => Palette::BrightYellow,
        11 => Palette::BrightWhite,
        12 => Palette::BrightRed,
        13 => Palette::BrightMagenta,
        14 => Palette::Orange,
        15 => Palette::PastelMagenta,
        16 => Palette::Blue,
        17 => Palette::SeaGreen,
        18 => Palette::BrightGreen,
        19 => Palette::BrightCyan,
        20 => Palette::Black,
        21 => Palette::BrightBlue,
        22 => Palette::Green,
        23 => Palette::SkyBlue,
        24 => Palette::Magenta,
        25 => Palette::PastelGreen,
        26 => Palette::Lime,
        27 => Palette::PastelCyan,
        28 => Palette::Red,
        29 => Palette::Mauve,
        30 => Palette::Yellow,
        _ => Palette::PastelBlue,
    }
}

/// The canonical (lowest) hardware colour number of a colour.
pub open spec fn spec_palette_index(p: Palette) -> u8 {
    match p {
        Palette::White => 0,
        Palette::SeaGreen => 2,
        Palette::PastelYellow => 3,
        Palette::Blue => 4,
        Palette::Purple => 5,
        Palette::Cyan => 6,
        Palette::Pink => 7,
        Palette::BrightYellow => 10,
        Palette::BrightWhite => 11,
        Palette::BrightRed => 12,
        Palette::BrightMagenta => 13,
        Palette::Orange => 14,
        Palette::PastelMagenta => 15,
        Palette::BrightGreen => 18,
        Palette::BrightCyan => 19,
        Palette::Black => 20,
        Palette::BrightBlue => 21,
        Palette::Green => 22,
        Palette::SkyBlue => 23,
        Palette::Magenta => 24,
        Palette::PastelGreen => 25,
        Palette::Lime => 26,
        Palette::PastelCyan => 27,
        Palette::Red => 28,
        Palette::Mauve => 29,
        Palette::Yellow => 30,
        Palette::PastelBlue => 31,
    }
}

/// The 24-bit RGB value of a colour; each channel is 0x00, 0x80 or 0xFF.
pub open spec fn spec_palette_color(p: Palette) -> u32 {
    match p {
        Palette::Black => 0x000000,
        Palette::Blue => 0x000080,
        Palette::BrightBlue => 0x0000FF,
        Palette::Red => 0x800000,
        Palette::Magenta => 0x800080,
        Palette::Mauve => 0x8000FF,
        Palette::BrightRed => 0xFF0000,
        Palette::Purple => 0xFF0080,
        Palette::BrightMagenta => 0xFF00FF,
        Palette::Green => 0x008000,
        Palette::Cyan => 0x008080,
        Palette::SkyBlue => 0x0080FF,
        Palette::Yellow => 0x808000,
        Palette::White => 0x808080,
        Palette::PastelBlue => 0x8080FF,
        Palette::Orange => 0xFF8000,
        Palette::Pink => 0xFF8080,
        Palette::PastelMagenta => 0xFF80FF,
        Palette::BrightGreen => 0x00FF00,
        Palette::SeaGreen => 0x00FF80,
        Palette::BrightCyan => 0x00FFFF,
        Palette::Lime => 0x80FF00,
        Palette::PastelGreen => 0x80FF80,
        Palette::PastelCyan => 0x80FFFF,
        Palette::BrightYellow => 0xFFFF00,
        Palette::PastelYellow => 0xFFFF80,
        Palette::BrightWhite => 0xFFFFFF,
    }
}

impl Palette {
    /// The colour that the 5-bit hardware colour number `idx` selects.
    pub fn from_index(idx: u8) -> (p: Palette)
        requires
            idx < 32,
        ensures
            p == spec_palette_from(idx),
    {
        match idx {
            0 => Self::White,
            1 => Self::White,
            2 => Self::SeaGreen,
            3 => Self::PastelYellow,
            4 => Self::Blue,
            5 => Self::Purple,
            6 => Self::Cyan,
            7 => Self::Pink,
            8 => Self::Purple,
            9 => Self::PastelYellow,
            10 => Self::BrightYellow,
            11 => Self::BrightWhite,
            12 => Self::BrightRed,
            13 => Self::BrightMagenta,
            14 => Self::Orange,
            15 => Self::PastelMagenta,
            16 => Self::Blue,
            17 => Self::SeaGreen,
            18 => Self::BrightGreen,
            19 => Self::BrightCyan,
            20 => Self::Black,
            21 => Self::BrightBlue,
            22 => Self::Green,
            23 => Self::SkyBlue,
            24 => Self::Magenta,
            25 => Self::PastelGreen,
            26 => Self::Lime,
            27 => Self::PastelCyan,
            28 => Self::Red,
            29 => Self::Mauve,
            30 => Self::Yellow,
            _ => Self::PastelBlue,
        }
    }

    /// The canonical hardware colour number of this colour.
    pub fn index(&self) -> (r: u8)
        ensures
            r == spec_palette_index(*self),
    {
        match self {
            Self::White => 0,
            Self::SeaGreen => 2,
            Self::PastelYellow => 3,
            Self::Blue => 4,
            Self::Purple => 5,
            Self::Cyan => 6,
            Self::Pink => 7,
            Self::BrightYellow => 10,
            Self::BrightWhite => 11,
            Self::BrightRed => 12,
            Self::BrightMagenta => 13,
            Self::Orange => 14,
            Self::PastelMagenta => 15,
            Self::BrightGreen => 18,
            Self::BrightCyan => 19,
            Self::Black => 20,
            Self::BrightBlue => 21,
            Self::Green => 22,
            Self::SkyBlue => 23,
            Self::Magenta => 24,
            Self::PastelGreen => 25,
            Self::Lime => 26,
            Self::PastelCyan => 27,
            Self::Red => 28,
            Self::Mauve => 29,
            Self::Yellow => 30,
            Self::PastelBlue => 31,
        }
    }

    /// The 24-bit RGB value of this colour.
    pub fn color(&self) -> (r: u32)
        ensures
            r == spec_palette_color(*self),
    {
        match self {
            Self::Black => 0x000000,
            Self::Blue => 0x000080,
            Self::BrightBlue => 0x0000FF,
            Self::Red => 0x800000,
            Self::Magenta => 0x800080,
            Self::Mauve => 0x8000FF,
            Self::BrightRed => 0xFF0000,
            Self::Purple => 0xFF0080,
            Self::BrightMagenta => 0xFF00FF,
            Self::Green => 0x008000,
            Self::Cyan => 0x008080,
            Self::SkyBlue => 0x0080FF,
            Self::Yellow => 0x808000,
            Self::White => 0x808080,
            Self::PastelBlue => 0x8080FF,
            Self::Orange => 0xFF8000,
            Self::Pink => 0xFF8080,
            Self::PastelMagenta => 0xFF80FF,
            Self::BrightGreen => 0x00FF00,
            Self::SeaGreen => 0x00FF80,
            Self::BrightCyan => 0x00FFFF,
            Self::Lime => 0x80FF00,
            Self::PastelGreen => 0x80FF80,
            Self::PastelCyan => 0x80FFFF,
            Self::BrightYellow => 0xFFFF00,
            Self::PastelYellow => 0xFFFF80,
            Self::BrightWhite => 0xFFFFFF,
        }
    }
}

impl From<Palette> for u8 {
    fn from(p: Palette) -> (r: u8) {
        p.index()
    }
}

impl vstd::std_specs::convert::FromSpecImpl<Palette> for u8 {
    open spec fn obeys_from_spec() -> bool {
        true
    }

    open spec fn from_spec(p: Palette) -> u8 {
        spec_palette_index(p)
    }
}

/// The four screen modes of the CPC's Gate Array.
#[derive(PartialEq, Eq, Debug, Clone, Copy, Structural)]
pub enum ScreenMode {
    Mode0,
    Mode1,
    Mode2,
    Mode3,
}

/// The screen mode that the two mode bits `value` select.
pub open spec fn spec_screen_mode(value: u8) -> ScreenMode
    recommends
        value < 4,
{
    if value == 0 {
        ScreenMode::Mode0
    } else if value == 1 {
        ScreenMode::Mode1
    } else if value == 2 {
        ScreenMode::Mode2
    } else {
        ScreenMode::Mode3
    }
}

impl ScreenMode {
    /// The screen mode that the two mode bits `value` select.
    pub fn from_bits(value: u8) -> (m: ScreenMode)
        requires
            value < 4,
        ensures
            m == spec_screen_mode(value),
    {
        match value {
            0 => Self::Mode0,
            1 => Self::Mode1,
            2 => Self::Mode2,
            _ => Self::Mode3,
        }
    }
}

/// Number of pens, the border (pen 16) included.
pub const PEN_COUNT: usize = 17;

/// The border pen.
pub const BORDER_PEN: u8 = 16;

/// Number of HSYNCs between two raster interrupts.
pub const INTERRUPT_PERIOD: u8 = 52;

/// The CPC's Gate Array: ROM enables, screen mode, pen inks and the raster
/// interrupt counter.
pub struct GateArray {
    pub lower_rom_enabled: bool,
    pub upper_rom_enabled: bool,
    pub mode: ScreenMode,
    pub selected_pen: u8,
    pub palette: [Palette; 17],
    pub interrupt_counter: u8,
    pub interrupt_requested: bool,
    pub vsync: bool,
    pub vsync_counter: u8,
}

impl GateArray {
    /// The selected pen is a real pen, the interrupt counter never passes
    /// 52 and the VSYNC delay counter never passes 2.
    pub open spec fn wf(&self) -> bool {
        &&& self.selected_pen <= BORDER_PEN
        &&& self.interrupt_counter <= INTERRUPT_PERIOD
        &&& self.vsync_counter <= 2
    }

    /// `new` is what a write of `value` to the CPC's Gate Array port makes of `self`.
    pub open spec fn spec_write(self, value: u8, new: GateArray) -> bool {
        let function = value >> 6u8;
        if function == 0 {
            new == GateArray {
                selected_pen: if value & 0x10 != 0 { BORDER_PEN } else { value & 0x0F },
                ..self
            }
        } else if function == 1 {
            &&& new == GateArray { palette: new.palette, ..self }
            &&& new.palette@ == self.palette@.update(
                self.selected_pen as int,
                spec_palette_from(value & 0x1F),
            )
        } else if function == 2 {
            new == GateArray {
                upper_rom_enabled: value & 0x08 == 0,
                lower_rom_enabled: value & 0x04 == 0,
                mode: spec_screen_mode(value & 0x03),
                interrupt_counter: if value & 0x10 != 0 { 0 } else { self.interrupt_counter },
                interrupt_requested: if value & 0x10 != 0 {
                    false
                } else {
                    self.interrupt_requested
                },
                ..self
            }
        } else {
            new == self
        }
    }

    /// The power-on state: both ROMs paged in, mode 1, pen 0 selected, every
    /// ink white, no interrupt and no VSYNC.
    pub open spec fn is_reset(&self) -> bool {
        &&& self.lower_rom_enabled
        &&& self.upper_rom_enabled
        &&& self.mode == ScreenMode::Mode1
        &&& self.selected_pen == 0
        &&& forall|i: int| 0 <= i < PEN_COUNT ==> #[trigger] self.palette@[i] == Palette::White
        &&& self.interrupt_counter == 0
        &&& !self.interrupt_requested
        &&& !self.vsync
        &&& self.vsync_counter == 0
    }

    pub fn new() -> (ga: Self)
        ensures
            ga.wf(),
            ga.is_reset(),
    {
        Self {
            lower_rom_enabled: true,
            upper_rom_enabled: true,
            mode: ScreenMode::Mode1,
            selected_pen: 0,
            palette: [Palette::White; 17],
            interrupt_counter: 0,
            interrupt_requested: false,
            vsync: false,
            vsync_counter: 0,
        }
    }

    /// Writes `value` to the CPC's Gate Array (port &7Fxx). Bits 7-6 pick the
    /// function: pen select, ink select, mode/ROM/interrupt control, or the
    /// RAM configuration (left alone here: the memory decodes it).
    pub fn write(&mut self, addr: u16, value: u8)
        requires
            old(self).wf(),
            addr >> 8u16 == 0x7F,
        ensures
            final(self).wf(),
            old(self).spec_write(value, *final(self)),
    {
        let function = value >> 6u8;
        assert(value >> 6u8 < 4) by (bit_vector);
        if function == 0 {
            self.select_pen(value);
        } else if function == 1 {
            self.select_color(value);
        } else if function == 2 {
            self.select_mode_and_rom(value);
        } else {
            self.select_ram_memory_management(value);
        }
    }

    pub fn lower_rom_enabled(&self) -> (r: bool)
        ensures
            r == self.lower_rom_enabled,
    {
        self.lower_rom_enabled
    }

    pub fn upper_rom_enabled(&self) -> (r: bool)
        ensures
            r == self.upper_rom_enabled,
    {
        self.upper_rom_enabled
    }

    pub fn mode(&self) -> (r: ScreenMode)
        ensures
            r == self.mode,
    {
        self.mode
    }

    pub fn selected_pen(&self) -> (r: u8)
        ensures
            r == self.selected_pen,
    {
        self.selected_pen
    }

    /// The VSYNC input as last set.
    pub fn vsync(&self) -> (r: bool)
        ensures
            r == self.vsync,
    {
        self.vsync
    }

    /// The colour assigned to `pen` (16 is the border).
    pub fn ink_for_pen(&self, pen: u8) -> (r: Palette)
        requires
            pen <= BORDER_PEN,
        ensures
            r == self.palette@[pen as int],
    {
        self.palette[pen as usize]
    }

    /// Selects a pen: bit 4 selects the border, else the low nibble is the pen.
    pub fn select_pen(&mut self, value: u8)
        requires
            old(self).wf(),
            value >> 6u8 == 0,
        ensures
            final(self).wf(),
            old(self).spec_write(value, *final(self)),
    {
        assert((value & 0x0F) <= 15) by (bit_vector);
        self.selected_pen = if (value & 0x10) != 0 {
            16
        } else {
            value & 0x0F
        };
    }

    /// Assigns the colour in the low five bits to the selected pen.
    pub fn select_color(&mut self, value: u8)
        requires
            old(self).wf(),
            value >> 6u8 == 1,
        ensures
            final(self).wf(),
            old(self).spec_write(value, *final(self)),
    {
        assert((value & 0x1F) < 32) by (bit_vector);
        let ink = Palette::from_index(value & 0x1F);
        let pen = self.selected_pen as usize;
        self.palette[pen] = ink;
        assert(self.palette@ =~= old(self).palette@.update(pen as int, ink));
    }

    /// Sets the ROM enables and the screen mode; bit 4 resets the interrupt
    /// counter and clears a pending interrupt.
    pub fn select_mode_and_rom(&mut self, value: u8)
        requires
            old(self).wf(),
            value >> 6u8 == 2,
        ensures
            final(self).wf(),
            old(self).spec_write(value, *final(self)),
    {
        assert((value & 0x03) < 4) by (bit_vector);
        self.upper_rom_enabled = (value & 0x08) == 0;
        self.lower_rom_enabled = (value & 0x04) == 0;
        self.mode = ScreenMode::from_bits(value & 0x03);
        if (value & 0x10) != 0 {
            self.interrupt_counter = 0;
            self.interrupt_requested = false;
        }
    }

    /// The RAM configuration is decoded by the memory, not by the CPC's Gate Array.
    pub fn select_ram_memory_management(&mut self, value: u8)
        requires
            old(self).wf(),
            value >> 6u8 == 3,
        ensures
            *final(self) == *old(self),
    {
    }

    /// What an HSYNC falling edge does to the interrupt logic.
    pub open spec fn spec_hsync(self) -> GateArray {
        let counter = (if self.interrupt_counter == INTERRUPT_PERIOD {
            0
        } else {
            self.interrupt_counter
        } + 1) as u8;
        let requested = self.interrupt_requested || counter == INTERRUPT_PERIOD;
        if self.vsync && self.vsync_counter < 2 {
            let vc = (self.vsync_counter + 1) as u8;
            if vc == 2 {
                GateArray {
                    interrupt_counter: 0,
                    interrupt_requested: counter < 32,
                    vsync_counter: vc,
                    ..self
                }
            } else {
                GateArray {
                    interrupt_counter: counter,
                    interrupt_requested: requested,
                    vsync_counter: vc,
                    ..self
                }
            }
        } else {
            GateArray { interrupt_counter: counter, interrupt_requested: requested, ..self }
        }
    }

    /// Counts an HSYNC: every 52nd requests an interrupt; the second HSYNC
    /// after VSYNC starts resets the counter (requesting an interrupt only
    /// when the counter was below 32).
    pub fn hsync(&mut self)
        requires
            old(self).wf(),
        ensures
            final(self).wf(),
            *final(self) == old(self).spec_hsync(),
    {
        if self.interrupt_counter == 52 {
            self.interrupt_counter = 0;
        }
        self.interrupt_counter += 1;
        if self.interrupt_counter == 52 {
            self.interrupt_requested = true;
        }
        if self.vsync && self.vsync_counter < 2 {
            self.vsync_counter += 1;
            if self.vsync_counter == 2 {
                self.interrupt_requested = self.interrupt_counter < 32;
                self.interrupt_counter = 0;
            }
        }
    }

    pub fn interrupt_requested(&self) -> (r: bool)
        ensures
            r == self.interrupt_requested,
    {
        self.interrupt_requested
    }

    /// The CPU acknowledged the interrupt: bit 5 of the counter is cleared
    /// and the request is dropped.
    pub fn acknowledge_interrupt(&mut self)
        requires
            old(self).wf(),
        ensures
            final(self).wf(),
            *final(self) == (GateArray {
                interrupt_counter: old(self).interrupt_counter & 0xDF,
                interrupt_requested: false,
                ..*old(self)
            }),
    {
        let c = self.interrupt_counter;
        assert(c & 0xDF <= c) by (bit_vector);
        self.interrupt_counter = c & !(1u8 << 5u8);
        assert(!(1u8 << 5u8) == 0xDFu8) by (bit_vector);
        self.interrupt_requested = false;
    }

    /// What the VSYNC input level `value` does.
    pub open spec fn spec_set_vsync(self, value: bool) -> GateArray {
        if value {
            if !self.vsync {
                GateArray { vsync: true, vsync_counter: 0, ..self }
            } else {
                self
            }
        } else {
            GateArray { vsync: false, vsync_counter: 0, ..self }
        }
    }

    /// Sets the VSYNC input; a rising edge restarts the VSYNC delay counter.
    pub fn set_vsync(&mut self, value: bool)
        requires
            old(self).wf(),
        ensures
            final(self).wf(),
            *final(self) == old(self).spec_set_vsync(value),
    {
        if value {
            if !self.vsync {
                self.vsync = true;
                self.vsync_counter = 0;
            }
        } else {
            self.vsync = false;
            self.vsync_counter = 0;
        }
    }
}

/// The state after `n` HSYNC falling edges.
pub open spec fn hsyncs(ga: GateArray, n: nat) -> GateArray
    decreases n,
{
    if n == 0 {
        ga
    } else {
        hsyncs(ga, (n - 1) as nat).spec_hsync()
    }
}

/// Every colour converts to its hardware number and back unchanged, and
/// every hardware number (0-31) names a colour whose number is among the
/// canonical 27 (the five duplicate numbers fold onto their twins).
pub proof fn law_palette_round_trip(p: Palette, idx: u8)
    requires
        idx < 32,
    ensures
        spec_palette_index(p) < 32,
        spec_palette_from(spec_palette_index(p)) == p,
        spec_palette_from(spec_palette_index(spec_palette_from(idx))) == spec_palette_from(idx),
{
}

/// The 27 colours of the hardware palette have 27 distinct RGB values.
pub proof fn law_palette_colors_distinct(p: Palette, q: Palette)
    ensures
        spec_palette_color(p) == spec_palette_color(q) ==> p == q,
{
}

/// Selecting a pen and then writing an ink sets that pen's colour: pen
/// select (function 0) picks pen `v & 15`, or the border when bit 4 is set;
/// ink select (function 1) stores colour `v & 31` in the selected pen.
pub proof fn law_pen_then_ink(ga: GateArray, pen_value: u8, ink_value: u8, ga1: GateArray, ga2: GateArray)
    requires
        pen_value >> 6u8 == 0,
        ink_value >> 6u8 == 1,
        ga.spec_write(pen_value, ga1),
        ga1.spec_write(ink_value, ga2),
    ensures
        ga2.palette@[(if pen_value & 0x10 != 0 { BORDER_PEN } else { pen_value & 0x0F }) as int]
            == spec_palette_from(ink_value & 0x1F),
        ga2.selected_pen == ga1.selected_pen,
{
    assert(pen_value & 0x0F < 16) by (bit_vector);
}

/// Without VSYNC, the interrupt counter counts HSYNCs from 0: after `n` of
/// them (up to 52) it reads `n`, and the interrupt is requested exactly at
/// the 52nd.
pub proof fn law_interrupt_every_52_lines(ga: GateArray, n: nat)
    requires
        ga.wf(),
        !ga.vsync,
        ga.interrupt_counter == 0,
        !ga.interrupt_requested,
        n <= INTERRUPT_PERIOD,
    ensures
        hsyncs(ga, n).interrupt_counter == n,
        hsyncs(ga, n).interrupt_requested <==> n == INTERRUPT_PERIOD,
        !hsyncs(ga, n).vsync,
    decreases n,
{
    if n > 0 {
        law_interrupt_every_52_lines(ga, (n - 1) as nat);
    }
}

/// A write of the RAM configuration function (bits 7-6 = 11) leaves the
/// chip as it was.
pub proof fn law_ram_configuration_ignored(ga: GateArray, value: u8, new: GateArray)
    requires
        value >> 6u8 == 3,
        ga.spec_write(value, new),
    ensures
        new == ga,
{
}

/// The interrupt counter after one more HSYNC, before any VSYNC reset.
pub open spec fn next_count(counter: u8) -> int {
    (if counter == INTERRUPT_PERIOD { 0 } else { counter as int }) + 1
}

/// VSYNC resynchronises the raster interrupt: on the second HSYNC after
/// VSYNC rises the counter is reset to 0, and an interrupt is requested
/// only when the counter had not passed 31 (else the pending one is
/// dropped).
pub proof fn law_vsync_resets_counter(ga: GateArray)
    requires
        ga.wf(),
        !ga.vsync,
    ensures
        ({
            let g1 = ga.spec_set_vsync(true).spec_hsync();
            let g2 = g1.spec_hsync();
            &&& g1.interrupt_counter == next_count(ga.interrupt_counter)
            &&& g2.interrupt_counter == 0
            &&& g2.interrupt_requested == (next_count(g1.interrupt_counter) < 32)
            &&& g2.vsync_counter == 2
            &&& g2.spec_hsync().interrupt_counter == 1
        }),
{
}

} // verus!
