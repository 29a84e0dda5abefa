use vstd::prelude::*;

use crate::keyboard::Keyboard;
use crate::tape::{spec_consume, TapePlayer, ZX_SCALE};

verus! {

/// Direction of PPI port A.
#[derive(PartialEq, Eq, Debug, Clone, Copy, Structural)]
pub enum PpiDirection {
    Input,
    Output,
}

/// What the PSG does with the bus, from port C bits 7 (BDIR) and 6 (BC1).
#[derive(PartialEq, Eq, Debug, Clone, Copy, Structural)]
pub enum PsgBusFunction {
    Inactive,
    ReadRegister,
    WriteRegister,
    SelectRegister,
}

/// The PSG bus function that the port C latch `c` selects.
pub open spec fn spec_psg_bus_function(c: u8) -> PsgBusFunction {
    let bdir = c & 0x80 != 0;
    let bc1 = c & 0x40 != 0;
    if !bdir && !bc1 {
        PsgBusFunction::Inactive
    } else if !bdir && bc1 {
        PsgBusFunction::ReadRegister
    } else if bdir && !bc1 {
        PsgBusFunction::WriteRegister
    } else {
        PsgBusFunction::SelectRegister
    }
}

/// The PSG register that holds the keyboard row.
pub const PSG_KEYBOARD_REGISTER: u8 = 14;

/// The 8255 PPI: port A to the PSG, port B status inputs, port C control
/// outputs (PSG bus, cassette, keyboard row), with the keyboard behind the
/// PSG and the cassette player behind port B bit 7.
pub struct Ppi {
    pub vsync_active: bool,
    pub port_a_latch: u8,
    pub port_a_direction: PpiDirection,
    pub port_c_latch: u8,
    pub screen_frequency_50hz: bool,
    pub cassette_read_data: bool,
    pub parallel_port_busy: bool,
    pub exp_present: bool,
    pub manufacturer_jumper: u8,
    pub psg_selected_register: u8,
    pub keyboard: Keyboard,
    pub tape: Option<TapePlayer>,
}

/// Port C after a bit set/reset control word: bits 3-1 pick the bit, bit 0
/// sets (1) or clears (0) it.
pub open spec fn spec_bit_set_reset(port_c: u8, value: u8) -> u8 {
    let bit = (value >> 1u8) & 0x07;
    if value & 0x01 != 0 {
        port_c | (1u8 << bit)
    } else {
        port_c & !(1u8 << bit)
    }
}

/// Applies a bit set/reset control word to port C.
pub fn bit_set_reset(port_c: u8, value: u8) -> (r: u8)
    ensures
        r == spec_bit_set_reset(port_c, value),
{
    let bit = (value >> 1u8) & 0x07;
    assert((value >> 1u8) & 0x07 < 8) by (bit_vector);
    if value & 0x01 != 0 {
        port_c | (1u8 << bit)
    } else {
        port_c & !(1u8 << bit)
    }
}

impl Ppi {
    /// The port B byte: bit 7 cassette data, bit 6 printer busy (set when
    /// the printer is not busy-flagged), bit 5 /EXP, bit 4 50 Hz, bits 3-1
    /// the manufacturer jumpers, bit 0 VSYNC.
    pub open spec fn spec_port_b(&self) -> u8 {
        ((if self.cassette_read_data { 0x80int } else { 0 }) + (if self.parallel_port_busy {
            0int
        } else {
            0x40
        }) + (if self.exp_present { 0x20int } else { 0 }) + (if self.screen_frequency_50hz {
            0x10int
        } else {
            0
        }) + 2 * (self.manufacturer_jumper & 0x07) + (if self.vsync_active {
            1int
        } else {
            0
        })) as u8
    }

    /// The keyboard row that port C bits 0-3 select.
    pub open spec fn spec_keyboard_row(&self) -> u8 {
        self.port_c_latch & 0x0F
    }

    /// Port A reads the keyboard: input mode, PSG register 14 selected and
    /// the PSG in read mode.
    pub open spec fn reads_keyboard(&self) -> bool {
        &&& self.port_a_direction == PpiDirection::Input
        &&& self.psg_selected_register == PSG_KEYBOARD_REGISTER
        &&& spec_psg_bus_function(self.port_c_latch) == PsgBusFunction::ReadRegister
    }

    /// The port A byte: the latch in output mode; in input mode the scanned
    /// keyboard row, or 0xFF when the PSG is not reading register 14.
    pub open spec fn spec_port_a(&self) -> u8 {
        if self.port_a_direction == PpiDirection::Output {
            self.port_a_latch
        } else if self.reads_keyboard() {
            self.keyboard.spec_read_row(self.spec_keyboard_row() as int)
        } else {
            0xFF
        }
    }

    /// The ports a read is answered on (&F4xx-&F6xx), and the keyboard row
    /// must be one of the ten when the keyboard is scanned.
    pub open spec fn can_read(&self, addr: u16) -> bool {
        let hi = addr >> 8u16;
        &&& 0xF4 <= hi <= 0xF6
        &&& (hi == 0xF4 && self.reads_keyboard() ==> self.spec_keyboard_row() < 10)
    }

    /// The byte a read of `addr` gives.
    pub open spec fn spec_read(&self, addr: u16) -> u8 {
        let hi = addr >> 8u16;
        if hi == 0xF4 {
            self.spec_port_a()
        } else if hi == 0xF5 {
            self.spec_port_b()
        } else {
            self.port_c_latch
        }
    }

    /// The ports a write is answered on (&F4xx, &F6xx, &F7xx); the control
    /// register takes the two mode words the CPC uses (port A output or
    /// input, port B input, port C output) and bit set/reset words.
    pub open spec fn can_write(&self, addr: u16, value: u8) -> bool {
        let hi = addr >> 8u16;
        ||| hi == 0xF4
        ||| hi == 0xF6
        ||| (hi == 0xF7 && (value == 0x82 || value == 0x92 || value & 0x80 == 0))
    }

    /// What a write of `value` to `addr` does.
    pub open spec fn spec_write(self, addr: u16, value: u8) -> Ppi {
        self.spec_write_port(addr >> 8u16, value)
    }

    /// Port C takes `value`; when its bits 7-6 select the PSG "select
    /// register" function, the PSG latches port A as its register number.
    pub open spec fn spec_port_c_write(self, value: u8) -> Ppi {
        if spec_psg_bus_function(value) == PsgBusFunction::SelectRegister {
            Ppi { port_c_latch: value, psg_selected_register: self.port_a_latch, ..self }
        } else {
            Ppi { port_c_latch: value, ..self }
        }
    }

    /// What a write of `value` to the port with high address byte `hi` does.
    pub open spec fn spec_write_port(self, hi: u16, value: u8) -> Ppi {
        if hi == 0xF4 {
            if self.port_a_direction == PpiDirection::Output {
                Ppi { port_a_latch: value, ..self }
            } else {
                self
            }
        } else if hi == 0xF6 {
            self.spec_port_c_write(value)
        } else if value & 0x80 == 0 {
            self.spec_port_c_write(spec_bit_set_reset(self.port_c_latch, value))
        } else {
            Ppi {
                port_a_direction: if value == 0x82 {
                    PpiDirection::Output
                } else {
                    PpiDirection::Input
                },
                ..self
            }
        }
    }

    /// The power-on state: both latches 0xFF, port A input, a 50 Hz machine
    /// with all manufacturer jumpers set, no key held and no tape.
    pub open spec fn is_reset(&self) -> bool {
        &&& self.vsync_active == false
        &&& self.port_a_latch == 0xFF
        &&& self.port_a_direction == PpiDirection::Input
        &&& self.port_c_latch == 0xFF
        &&& self.screen_frequency_50hz
        &&& !self.cassette_read_data
        &&& !self.parallel_port_busy
        &&& self.exp_present
        &&& self.manufacturer_jumper == 0x07
        &&& self.psg_selected_register == 0
        &&& self.keyboard@ == Set::<crate::keyboard::CpcKey>::empty()
        &&& forall|i: int| 0 <= i < 80 ==> !#[trigger] self.keyboard.pressed_keys@[i]
        &&& self.tape.is_none()
    }

    pub fn new() -> (p: Self)
        ensures
            p.is_reset(),
    {
        Self {
            vsync_active: false,
            port_a_latch: 0xFF,
            port_a_direction: PpiDirection::Input,
            port_c_latch: 0xFF,
            screen_frequency_50hz: true,
            cassette_read_data: false,
            parallel_port_busy: false,
            exp_present: true,
            manufacturer_jumper: 0b111,
            psg_selected_register: 0,
            keyboard: Keyboard::new(),
            tape: None,
        }
    }

    /// Reads port A (&F4xx), B (&F5xx) or C (&F6xx).
    pub fn read(&self, addr: u16) -> (r: u8)
        requires
            self.can_read(addr),
        ensures
            r == self.spec_read(addr),
    {
        let hi = addr >> 8u16;
        if hi == 0xF4 {
            self.read_port_a()
        } else if hi == 0xF5 {
            self.read_port_b()
        } else {
            self.read_port_c()
        }
    }

    /// Whether a read of `addr` is answered now (see `can_read`).
    pub fn check_read(&self, addr: u16) -> (r: bool)
        ensures
            r == self.can_read(addr),
    {
        let hi = addr >> 8u16;
        if hi < 0xF4 || hi > 0xF6 {
            return false;
        }
        let reads_keyboard = self.port_a_direction == PpiDirection::Input
            && self.psg_selected_register == PSG_KEYBOARD_REGISTER && self.psg_bus_function()
            == PsgBusFunction::ReadRegister;
        !(hi == 0xF4 && reads_keyboard) || self.keyboard_row() < 10
    }

    /// Whether a write of `value` to `addr` is answered (see `can_write`).
    pub fn check_write(&self, addr: u16, value: u8) -> (r: bool)
        ensures
            r == self.can_write(addr, value),
    {
        let hi = addr >> 8u16;
        hi == 0xF4 || hi == 0xF6 || (hi == 0xF7 && (value == 0x82 || value == 0x92 || value & 0x80
            == 0))
    }

    /// Writes port A (&F4xx), C (&F6xx) or the control register (&F7xx).
    pub fn write(&mut self, addr: u16, value: u8)
        requires
            old(self).can_write(addr, value),
        ensures
            *final(self) == old(self).spec_write(addr, value),
    {
        let hi = addr >> 8u16;
        if hi == 0xF4 {
            self.write_port_a(value);
        } else if hi == 0xF6 {
            self.write_port_c(value);
        } else {
            self.write_control_register(value);
        }
    }

    pub fn keyboard_mut(&mut self) -> (k: &mut Keyboard)
        ensures
            *k == old(self).keyboard,
            *final(self) == (Ppi { keyboard: *final(k), ..*old(self) }),
    {
        &mut self.keyboard
    }

    pub fn read_port_a(&self) -> (r: u8)
        requires
            self.reads_keyboard() ==> self.spec_keyboard_row() < 10,
        ensures
            r == self.spec_port_a(),
    {
        match self.port_a_direction {
            PpiDirection::Output => self.port_a_latch,
            PpiDirection::Input => {
                if self.psg_selected_register == 14 && self.psg_bus_function()
                    == PsgBusFunction::ReadRegister {
                    self.keyboard.read_row(self.keyboard_row())
                } else {
                    0xFF
                }
            },
        }
    }

    pub fn read_port_b(&self) -> (r: u8)
        ensures
            r == self.spec_port_b(),
    {
        let mj = self.manufacturer_jumper;
        assert(((mj & 0x07) << 1u8) & 0x0E == 2 * (mj & 0x07)) by (bit_vector);
        assert(mj & 0x07 <= 7) by (bit_vector);
        (if self.cassette_read_data {
            0x80u8
        } else {
            0
        }) + (if self.parallel_port_busy {
            0u8
        } else {
            0x40
        }) + (if self.exp_present {
            0x20u8
        } else {
            0
        }) + (if self.screen_frequency_50hz {
            0x10u8
        } else {
            0
        }) + (((mj & 0x07) << 1u8) & 0x0E) + (if self.vsync_active {
            1u8
        } else {
            0
        })
    }

    pub fn read_port_c(&self) -> (r: u8)
        ensures
            r == self.port_c_latch,
    {
        self.port_c_latch
    }

    pub fn write_port_a(&mut self, value: u8)
        ensures
            *final(self) == old(self).spec_write_port(0xF4, value),
    {
        match self.port_a_direction {
            PpiDirection::Output => {
                self.port_a_latch = value;
            },
            PpiDirection::Input => {},
        }
    }

    pub fn write_port_c(&mut self, value: u8)
        ensures
            *final(self) == old(self).spec_write_port(0xF6, value),
    {
        self.port_c_latch = value;
        if self.psg_bus_function() == PsgBusFunction::SelectRegister {
            self.psg_selected_register = self.port_a_latch;
        }
    }

    pub fn write_control_register(&mut self, value: u8)
        requires
            value == 0x82 || value == 0x92 || value & 0x80 == 0,
        ensures
            *final(self) == old(self).spec_write_port(0xF7, value),
    {
        if value & 0x80 == 0 {
            let c = bit_set_reset(self.port_c_latch, value);
            self.write_port_c(c);
        } else if value == 0x82 {
            self.port_a_direction = PpiDirection::Output;
        } else {
            self.port_a_direction = PpiDirection::Input;
        }
    }

    pub fn psg_bdir(&self) -> (r: bool)
        ensures
            r == (self.port_c_latch & 0x80 != 0),
    {
        (self.port_c_latch & 0x80) != 0
    }

    pub fn psg_bc1(&self) -> (r: bool)
        ensures
            r == (self.port_c_latch & 0x40 != 0),
    {
        (self.port_c_latch & 0x40) != 0
    }

    pub fn cassette_write_data(&self) -> (r: bool)
        ensures
            r == (self.port_c_latch & 0x20 != 0),
    {
        (self.port_c_latch & 0x20) != 0
    }

    pub fn cassette_motor(&self) -> (r: bool)
        ensures
            r == (self.port_c_latch & 0x10 != 0),
    {
        (self.port_c_latch & 0x10) != 0
    }

    pub fn keyboard_row(&self) -> (r: u8)
        ensures
            r == self.spec_keyboard_row(),
            r < 16,
    {
        let c = self.port_c_latch;
        assert(c & 0x0F < 16) by (bit_vector);
        c & 0x0F
    }

    pub fn psg_bus_function(&self) -> (r: PsgBusFunction)
        ensures
            r == spec_psg_bus_function(self.port_c_latch),
    {
        match (self.psg_bdir(), self.psg_bc1()) {
            (false, false) => PsgBusFunction::Inactive,
            (false, true) => PsgBusFunction::ReadRegister,
            (true, false) => PsgBusFunction::WriteRegister,
            (true, true) => PsgBusFunction::SelectRegister,
        }
    }

    pub fn set_vsync(&mut self, vsync: bool)
        ensures
            *final(self) == (Ppi { vsync_active: vsync, ..*old(self) }),
    {
        self.vsync_active = vsync;
    }

    /// Puts a tape in the cassette deck, replacing any other.
    pub fn load_tape(&mut self, tape: TapePlayer)
        ensures
            *final(self) == (Ppi { tape: Some(tape), ..*old(self) }),
    {
        self.tape = Some(tape);
    }

    pub fn tape(&self) -> (r: Option<&TapePlayer>)
        ensures
            match self.tape {
                None => r is None,
                Some(t) => r matches Some(rt) && *rt == t,
            },
    {
        self.tape.as_ref()
    }

    pub fn tape_mut(&mut self) -> (r: Option<&mut TapePlayer>)
        ensures
            old(self).tape is None ==> r is None && *final(self) == *old(self),
            old(self).tape matches Some(t) ==> (r matches Some(rt) && *rt == t && *final(self) == (
            Ppi { tape: Some(*final(rt)), ..*old(self) })),
    {
        self.tape.as_mut()
    }

    /// `new` is the PPI after the cassette deck ran for `cycles` ticks: with
    /// the motor on, a playing tape consumes `cycles` (scaled to the tape's
    /// clock) of its pulses and port B bit 7 follows the EAR level.
    pub open spec fn tape_ticked(self, new: Ppi, cycles: u64) -> bool {
        match self.tape {
            None => new == self,
            Some(t) => new.tape matches Some(nt) && {
                &&& (self.port_c_latch & 0x10 != 0) ==> ({
                    let (d, ear) = spec_consume(t.durations@, t.ear, cycles * ZX_SCALE);
                    if t.spec_is_playing() {
                        nt.durations@ == d && nt.ear == ear && nt.playing == t.playing
                    } else {
                        nt == t
                    }
                })
                &&& (self.port_c_latch & 0x10 == 0) ==> nt == t
                &&& new == (Ppi { tape: Some(nt), cassette_read_data: nt.ear, ..self })
            },
        }
    }

    /// Runs the cassette deck for `cycles` ticks: the tape moves only while
    /// the motor (port C bit 4) is on, and port B bit 7 follows its EAR output.
    pub fn tick_tape(&mut self, cycles: u64)
        requires
            cycles * ZX_SCALE <= u64::MAX,
        ensures
            old(self).tape_ticked(*final(self), cycles),
    {
        let motor = self.cassette_motor();
        match &mut self.tape {
            Some(tape) => {
                if motor {
                    tape.advance(cycles);
                }
                self.cassette_read_data = tape.ear();
            },
            None => {},
        }
    }
}

/// A bit set/reset control word changes exactly the one port C bit it
/// names (bits 3-1), to the value of its bit 0.
pub proof fn law_bit_set_reset(port_c: u8, value: u8, i: u8)
    requires
        i < 8,
    ensures
        ((spec_bit_set_reset(port_c, value) >> i) & 1 == 1) == (if i == (value >> 1u8) & 0x07 {
            value & 0x01 != 0
        } else {
            (port_c >> i) & 1 == 1
        }),
{
    assert(((if value & 0x01 != 0 {
        port_c | (1u8 << ((value >> 1u8) & 0x07))
    } else {
        port_c & !(1u8 << ((value >> 1u8) & 0x07))
    }) >> i) & 1 == 1 <==> (if i == (value >> 1u8) & 0x07 {
        value & 0x01 != 0
    } else {
        (port_c >> i) & 1 == 1
    })) by (bit_vector)
        requires
            i < 8,
    ;
}

/// Selecting a PSG register: with port A as output holding `reg`, a port
/// C write whose bits 7-6 are 11 makes `reg` the selected PSG register.
pub proof fn law_psg_register_select(p: Ppi, reg: u8, c: u8)
    requires
        p.port_a_direction == PpiDirection::Output,
        c & 0xC0 == 0xC0,
    ensures
        p.spec_write(0xF400, reg).spec_write(0xF600, c).psg_selected_register == reg,
        p.spec_write(0xF400, reg).spec_write(0xF600, c).port_c_latch == c,
{
    assert(0xF400u16 >> 8u16 == 0xF4 && 0xF600u16 >> 8u16 == 0xF6) by (bit_vector);
    assert(c & 0x80 != 0 && c & 0x40 != 0) by (bit_vector)
        requires
            c & 0xC0 == 0xC0,
    ;
}

} // verus!
