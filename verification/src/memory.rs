use vstd::prelude::*;

verus! {

/// Something the video circuit can fetch bytes from.
pub trait MemoryReader {
    /// Whether the reader is in a state where `read_byte` may be called.
    spec fn readable(&self) -> bool;

    /// The byte that `read_byte` returns at `addr`.
    spec fn byte_at(&self, addr: u16) -> u8;

    fn read_byte(&self, addr: u16) -> (r: u8)
        requires
            self.readable(),
        ensures
            r == self.byte_at(addr),
    ;
}

/// The RAM of the machine: 64 KB (CPC 464) or 128 KB (CPC 6128).
pub enum CpcMemory {
    Model64K { ram: Vec<u8> },
    Model128K { ram: Vec<u8> },
}

/// Size of the RAM of a CPC 464.
pub const RAM_64K: usize = 0x10000;

/// Size of the RAM of a CPC 6128.
pub const RAM_128K: usize = 0x20000;

/// Physical RAM offset that `addr` maps to under a memory configuration.
///
/// On the 64 KB model the address is used as is. On the 128 KB model the
/// configurations 1 to 7 map parts of the second bank in (configuration 2
/// maps the whole second bank; 3 maps block 3 at &4000; 4 to 7 map one of
/// the four blocks of the second bank at &4000; 1 and 3 map block 7 at &C000).
pub open spec fn spec_memory_address(is_128k: bool, addr: u16, bank: u8) -> int {
    if !is_128k {
        addr as int
    } else if bank == 2 {
        0x10000 + addr
    } else if 0x4000 <= addr <= 0x7FFF && bank == 3 {
        0x8000 + addr
    } else if 0x4000 <= addr <= 0x7FFF && 4 <= bank <= 7 {
        0x10000 + (bank - 4) * 0x4000 + (addr - 0x4000)
    } else if 0xC000 <= addr && 1 <= bank <= 3 {
        0x10000 + addr
    } else {
        addr as int
    }
}

impl CpcMemory {
    /// Whether this is the 128 KB model.
    pub open spec fn is_128k(&self) -> bool {
        self is Model128K
    }

    /// The contents of the RAM.
    pub open spec fn ram(&self) -> Seq<u8> {
        match self {
            CpcMemory::Model64K { ram } => ram@,
            CpcMemory::Model128K { ram } => ram@,
        }
    }

    /// The RAM has the size of its model.
    pub open spec fn wf(&self) -> bool {
        match self {
            CpcMemory::Model64K { ram } => ram@.len() == RAM_64K,
            CpcMemory::Model128K { ram } => ram@.len() == RAM_128K,
        }
    }

    /// Physical offset of `addr` under the memory configuration `bank`.
    pub open spec fn address_of(&self, addr: u16, bank: u8) -> int {
        spec_memory_address(self.is_128k(), addr, bank)
    }

    pub fn new_64k() -> (m: Self)
        ensures
            m.wf(),
            !m.is_128k(),
            forall|i: int| 0 <= i < RAM_64K ==> #[trigger] m.ram()[i] == 0xFF,
    {
        let ram = fill_bytes(0xFF, RAM_64K);
        Self::Model64K { ram }
    }

    pub fn new_128k() -> (m: Self)
        ensures
            m.wf(),
            m.is_128k(),
            forall|i: int| 0 <= i < RAM_128K ==> #[trigger] m.ram()[i] == 0xFF,
    {
        let ram = fill_bytes(0xFF, RAM_128K);
        Self::Model128K { ram }
    }

    /// Reads the byte that `addr` maps to under the memory configuration
    /// `memory_bank_selection`.
    pub fn read(&self, addr: u16, memory_bank_selection: u8) -> (r: u8)
        requires
            self.wf(),
        ensures
            r == self.ram()[self.address_of(addr, memory_bank_selection)],
    {
        let memory_address = self.memory_address(addr, memory_bank_selection);
        match self {
            Self::Model64K { ram } => ram[memory_address],
            Self::Model128K { ram } => ram[memory_address],
        }
    }

    /// Writes the byte that `addr` maps to under the memory configuration
    /// `memory_bank_selection`.
    pub fn write(&mut self, addr: u16, value: u8, memory_bank_selection: u8)
        requires
            old(self).wf(),
        ensures
            final(self).wf(),
            final(self).is_128k() == old(self).is_128k(),
            final(self).ram() == old(self).ram().update(
                old(self).address_of(addr, memory_bank_selection),
                value,
            ),
    {
        let memory_address = self.memory_address(addr, memory_bank_selection);
        match self {
            Self::Model64K { ram } => ram.set(memory_address, value),
            Self::Model128K { ram } => ram.set(memory_address, value),
        }
    }

    /// Physical offset of `addr` under the memory configuration `bank`.
    pub fn memory_address(&self, addr: u16, memory_bank_selection: u8) -> (r: usize)
        requires
            self.wf(),
        ensures
            r == self.address_of(addr, memory_bank_selection),
            r < self.ram().len(),
    {
        match self {
            Self::Model64K { .. } => addr as usize,
            Self::Model128K { .. } => {
                let a = addr as usize;
                let b = memory_bank_selection as usize;
                if b == 2 {
                    0x10000 + a
                } else if 0x4000 <= a && a <= 0x7FFF && b == 3 {
                    0x8000 + a
                } else if 0x4000 <= a && a <= 0x7FFF && 4 <= b && b <= 7 {
                    0x10000 + (b - 4) * 0x4000 + (a - 0x4000)
                } else if 0xC000 <= a && 1 <= b && b <= 3 {
                    0x10000 + a
                } else {
                    a
                }
            },
        }
    }
}

impl MemoryReader for CpcMemory {
    open spec fn readable(&self) -> bool {
        self.wf()
    }

    open spec fn byte_at(&self, addr: u16) -> u8 {
        self.ram()[self.address_of(addr, 0)]
    }

    fn read_byte(&self, addr: u16) -> (r: u8) {
        self.read(addr, 0)
    }
}

/// A vector of `len` copies of `value`.
pub fn fill_bytes(value: u8, len: usize) -> (v: Vec<u8>)
    ensures
        v@.len() == len,
        forall|i: int| 0 <= i < len ==> #[trigger] v@[i] == value,
{
    let mut v: Vec<u8> = Vec::with_capacity(len);
    let mut i: usize = 0;
    while i < len
        invariant
            i <= len,
            v@.len() == i,
            forall|j: int| 0 <= j < i ==> #[trigger] v@[j] == value,
        decreases len - i,
    {
        v.push(value);
        i = i + 1;
    }
    v
}

/// Every address maps into the RAM under every configuration; the 64 KB
/// model and configuration 0 map addresses to themselves.
pub proof fn law_addresses_in_ram(m: CpcMemory, addr: u16, bank: u8)
    requires
        m.wf(),
    ensures
        0 <= m.address_of(addr, bank) < m.ram().len(),
        !m.is_128k() ==> m.address_of(addr, bank) == addr,
        m.address_of(addr, 0) == addr,
{
}

/// A read gives back what the last write to the same address wrote, under
/// the same configuration, and a write changes no other physical byte.
pub proof fn law_read_after_write(
    m: CpcMemory,
    new: CpcMemory,
    addr: u16,
    value: u8,
    bank: u8,
    other: u16,
    other_bank: u8,
)
    requires
        m.wf(),
        new.is_128k() == m.is_128k(),
        new.ram() == m.ram().update(m.address_of(addr, bank), value),
    ensures
        new.ram()[new.address_of(addr, bank)] == value,
        new.address_of(other, other_bank) != new.address_of(addr, bank) ==> new.ram()[new.address_of(
            other,
            other_bank,
        )] == m.ram()[m.address_of(other, other_bank)],
{
}

/// The 128 KB configurations: 0 maps the first bank linearly; 1 swaps the
/// second bank's block 3 in at &C000; 2 maps the whole second bank; 3 maps
/// first-bank block 3 at &4000 and second-bank block 3 at &C000; 4-7 map
/// second-bank block `config - 4` at &4000.
pub proof fn law_banking_configurations(addr: u16, config: u8)
    requires
        config < 8,
    ensures
        config == 0 ==> spec_memory_address(true, addr, config) == addr,
        config == 2 ==> spec_memory_address(true, addr, config) == 0x10000 + addr,
        (config == 1 || config == 3) && addr >= 0xC000 ==> spec_memory_address(true, addr, config)
            == 0x10000 + addr,
        config == 3 && 0x4000 <= addr < 0x8000 ==> spec_memory_address(true, addr, config) == 0xC000
            + (addr - 0x4000),
        config >= 4 && 0x4000 <= addr < 0x8000 ==> spec_memory_address(true, addr, config) == 0x10000
            + (config - 4) * 0x4000 + (addr - 0x4000),
        config != 2 && (addr < 0x4000 || (0x8000 <= addr < 0xC000)) ==> spec_memory_address(
            true,
            addr,
            config,
        ) == addr,
        config >= 4 && addr >= 0xC000 ==> spec_memory_address(true, addr, config) == addr,
{
}

/// The 16 KB RAM block (0-3 in the first bank, 4-7 in the second) that
/// the Z80's 16 KB window `window` (0: &0000, 1: &4000, 2: &8000,
/// 3: &C000) shows under configuration `config` of the 128 KB model, as
/// the configuration table of the 6128 lists it:
/// 0: 0 1 2 3, 1: 0 1 2 7, 2: 4 5 6 7, 3: 0 3 2 7, 4: 0 4 2 3,
/// 5: 0 5 2 3, 6: 0 6 2 3, 7: 0 7 2 3.
pub open spec fn configuration_block(config: int, window: int) -> int {
    let table: Seq<Seq<int>> = seq![
        seq![0, 1, 2, 3],
        seq![0, 1, 2, 7],
        seq![4, 5, 6, 7],
        seq![0, 3, 2, 7],
        seq![0, 4, 2, 3],
        seq![0, 5, 2, 3],
        seq![0, 6, 2, 3],
        seq![0, 7, 2, 3],
    ];
    table[config][window]
}

/// Banking of the 128 KB model: under each of the eight configurations,
/// an address lies in the RAM block that the configuration table gives
/// for its 16 KB window, at the same offset inside the block; a
/// configuration number of 8 or more maps every address to itself.
pub proof fn law_configuration_table(addr: u16, config: u8)
    ensures
        config < 8 ==> spec_memory_address(true, addr, config) == configuration_block(
            config as int,
            (addr / 0x4000) as int,
        ) * 0x4000 + addr % 0x4000,
        config >= 8 ==> spec_memory_address(true, addr, config) == addr,
{
    let w = (addr / 0x4000) as int;
    assert(0 <= w < 4);
    assert(addr == w * 0x4000 + addr % 0x4000);
}

} // verus!
