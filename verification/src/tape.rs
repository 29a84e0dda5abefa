use vstd::prelude::*;
use std::collections::VecDeque;

use crate::bytes::{has_prefix, le16, le24, read_le16, read_le24, spec_has_prefix};

verus! {

/// CDT timings are in ZX Spectrum T-states (3.5 MHz); the tape is stepped in
/// CPC microsecond ticks. One tick is 7 ZX units ...
pub const ZX_SCALE: u64 = 7;

/// ... and one T-state is 8 units.
pub const CPC_SCALE: u64 = 8;

/// Why a CDT image was refused.
#[derive(Debug, PartialEq, Eq, Clone, Copy, Structural)]
pub enum TapeError {
    InvalidHeader,
    UnknownBlockId(u8),
    Truncated,
}

/// One level change of the EAR signal, with the time it lasts.
#[derive(Debug, PartialEq, Eq, Clone, Copy, Structural)]
pub enum Pulse {
    Toggle(u64),
    Low(u64),
    High(u64),
}

/// How long `p` lasts.
pub open spec fn spec_duration(p: Pulse) -> u64 {
    match p {
        Pulse::Toggle(x) => x,
        Pulse::Low(x) => x,
        Pulse::High(x) => x,
    }
}

/// `p` with its duration replaced by `d`.
pub open spec fn spec_with_duration(p: Pulse, d: u64) -> Pulse {
    match p {
        Pulse::Toggle(_) => Pulse::Toggle(d),
        Pulse::Low(_) => Pulse::Low(d),
        Pulse::High(_) => Pulse::High(d),
    }
}

/// The EAR level after pulse `p` ends, starting from `ear`.
pub open spec fn spec_ear_after(p: Pulse, ear: bool) -> bool {
    match p {
        Pulse::Toggle(_) => !ear,
        Pulse::Low(_) => false,
        Pulse::High(_) => true,
    }
}

/// A toggle lasting `cycles` T-states.
pub open spec fn toggle(cycles: int) -> Pulse {
    Pulse::Toggle((cycles * CPC_SCALE) as u64)
}

impl Pulse {
    pub fn new_toggle(cycles: u64) -> (p: Self)
        requires
            cycles * CPC_SCALE <= u64::MAX,
        ensures
            p == toggle(cycles as int),
    {
        Self::Toggle(cycles * CPC_SCALE)
    }

    pub fn new_low(cycles: u64) -> (p: Self)
        requires
            cycles * CPC_SCALE <= u64::MAX,
        ensures
            p == Pulse::Low((cycles * CPC_SCALE) as u64),
    {
        Self::Low(cycles * CPC_SCALE)
    }

    pub fn new_high(cycles: u64) -> (p: Self)
        requires
            cycles * CPC_SCALE <= u64::MAX,
        ensures
            p == Pulse::High((cycles * CPC_SCALE) as u64),
    {
        Self::High(cycles * CPC_SCALE)
    }

    pub fn duration(&self) -> (r: u64)
        ensures
            r == spec_duration(*self),
    {
        match self {
            Pulse::Toggle(x) => *x,
            Pulse::Low(x) => *x,
            Pulse::High(x) => *x,
        }
    }

    /// This pulse with its duration replaced by `d`.
    pub fn with_duration(&self, d: u64) -> (p: Pulse)
        ensures
            p == spec_with_duration(*self, d),
    {
        match self {
            Pulse::Toggle(_) => Pulse::Toggle(d),
            Pulse::Low(_) => Pulse::Low(d),
            Pulse::High(_) => Pulse::High(d),
        }
    }
}

// ----------------------------------------------------------------------
// The CDT format
// ----------------------------------------------------------------------
/// The signature a CDT image starts with: "ZXTape!" and 0x1A.
pub open spec fn cdt_signature() -> Seq<u8> {
    seq![0x5Au8, 0x58, 0x54, 0x61, 0x70, 0x65, 0x21, 0x1A]
}

/// A pause of `pause` milliseconds (EAR held low); none when zero.
pub open spec fn pause_pulses(pause: int) -> Seq<Pulse> {
    if pause > 0 {
        seq![Pulse::Low((3500 * pause * CPC_SCALE) as u64)]
    } else {
        seq![]
    }
}

/// The pulses of the top `n` bits of `byte`, most significant first: two
/// toggles per bit, of the `one` or `zero` length.
pub open spec fn bit_pulses(byte: u8, n: int, zero: int, one: int) -> Seq<Pulse>
    decreases n,
{
    if n <= 0 {
        seq![]
    } else {
        let p = if (byte >> ((8 - n) as u8)) & 1 != 0 { one } else { zero };
        bit_pulses(byte, n - 1, zero, one) + seq![toggle(p), toggle(p)]
    }
}

/// The pulses of the first `n` bytes of `block`; all 8 bits of each byte
/// are sent, but only the top `used` bits of the last byte of the block.
pub open spec fn bytes_pulses(block: Seq<u8>, n: int, used: int, zero: int, one: int) -> Seq<Pulse>
    decreases n,
{
    if n <= 0 {
        seq![]
    } else {
        bytes_pulses(block, n - 1, used, zero, one) + bit_pulses(
            block[n - 1],
            if n == block.len() { used } else { 8 },
            zero,
            one,
        )
    }
}

/// A data block: `count` pilot pulses, two sync pulses, the data bits and
/// the pause.
pub open spec fn data_block_pulses(
    pilot: int,
    sync1: int,
    sync2: int,
    zero: int,
    one: int,
    count: int,
    used: int,
    block: Seq<u8>,
    pause: int,
) -> Seq<Pulse> {
    Seq::new(count as nat, |i: int| toggle(pilot)) + seq![toggle(sync1), toggle(sync2)]
        + bytes_pulses(block, block.len() as int, used, zero, one) + pause_pulses(pause)
}

/// The bits of the last data byte a custom block sends: the header's count,
/// at most the 8 bits a byte has.
pub open spec fn used_bits(n: u8) -> u8 {
    if n > 8 {
        8
    } else {
        n
    }
}

/// What decoding one block of a CDT gives.
pub enum BlockOutcome {
    /// The block's pulses, and where the next block starts.
    Decoded(Seq<Pulse>, int),
    /// The image is refused.
    Rejected(TapeError),
}

/// What reading a whole CDT gives.
pub enum CdtOutcome {
    Parsed(Seq<Pulse>),
    Rejected(TapeError),
}

/// Decodes the block whose id is at `idx`.
pub open spec fn spec_block(data: Seq<u8>, idx: int) -> BlockOutcome {
    let id = data[idx];
    let i = idx + 1;
    if id == 0x10 {
        if i + 4 > data.len() {
            BlockOutcome::Rejected(TapeError::Truncated)
        } else {
            let pause = le16(data, i);
            let n = le16(data, i + 2);
            let s = i + 4;
            if s + n > data.len() || s >= data.len() {
                BlockOutcome::Rejected(TapeError::Truncated)
            } else {
                let count = if data[s] < 128 { 8063int } else { 3223int };
                BlockOutcome::Decoded(
                    data_block_pulses(
                        2168,
                        667,
                        735,
                        855,
                        1710,
                        count,
                        8,
                        data.subrange(s, s + n),
                        pause,
                    ),
                    s + n,
                )
            }
        }
    } else if id == 0x11 {
        if i + 18 > data.len() {
            BlockOutcome::Rejected(TapeError::Truncated)
        } else {
            let n = le24(data, i + 15);
            let s = i + 18;
            let used = used_bits(data[i + 12]);
            if s + n > data.len() {
                BlockOutcome::Rejected(TapeError::Truncated)
            } else {
                BlockOutcome::Decoded(
                    data_block_pulses(
                        le16(data, i),
                        le16(data, i + 2),
                        le16(data, i + 4),
                        le16(data, i + 6),
                        le16(data, i + 8),
                        le16(data, i + 10),
                        used as int,
                        data.subrange(s, s + n),
                        le16(data, i + 13),
                    ),
                    s + n,
                )
            }
        }
    } else if id == 0x20 {
        if i + 2 > data.len() {
            BlockOutcome::Rejected(TapeError::Truncated)
        } else {
            BlockOutcome::Decoded(pause_pulses(le16(data, i)), i + 2)
        }
    } else if id == 0x30 {
        if i + 1 > data.len() {
            BlockOutcome::Rejected(TapeError::Truncated)
        } else {
            let next = i + 1 + data[i];
            if next > data.len() {
                BlockOutcome::Rejected(TapeError::Truncated)
            } else {
                BlockOutcome::Decoded(seq![], next)
            }
        }
    } else {
        BlockOutcome::Rejected(TapeError::UnknownBlockId(id))
    }
}

/// A decoded block ends after its id.
pub proof fn lemma_block_advances(data: Seq<u8>, idx: int)
    requires
        0 <= idx < data.len(),
    ensures
        spec_block(data, idx) matches BlockOutcome::Decoded(_, next) ==> idx < next <= data.len(),
{
}

/// Decodes the blocks from `idx` to the end of the image.
pub open spec fn spec_blocks(data: Seq<u8>, idx: int) -> CdtOutcome
    decreases data.len() - idx,
{
    if idx < 0 || idx >= data.len() {
        CdtOutcome::Parsed(seq![])
    } else {
        match spec_block(data, idx) {
            BlockOutcome::Decoded(p, next) => {
                proof {
                    lemma_block_advances(data, idx);
                }
                match spec_blocks(data, next) {
                    CdtOutcome::Parsed(rest) => CdtOutcome::Parsed(p + rest),
                    other => other,
                }
            },
            BlockOutcome::Rejected(e) => CdtOutcome::Rejected(e),
        }
    }
}

/// Reads a CDT image: the signature, a version 1.x header (minor at most
/// 20), then the blocks.
pub open spec fn spec_parse_cdt(data: Seq<u8>) -> CdtOutcome {
    if data.len() < 10 {
        CdtOutcome::Rejected(TapeError::Truncated)
    } else if !spec_has_prefix(data, cdt_signature()) {
        CdtOutcome::Rejected(TapeError::InvalidHeader)
    } else if data[8] != 1 || data[9] > 20 {
        CdtOutcome::Rejected(TapeError::InvalidHeader)
    } else {
        spec_blocks(data, 10)
    }
}

/// `prefix` followed by what the rest decodes to.
pub open spec fn prepend(prefix: Seq<Pulse>, rest: CdtOutcome) -> CdtOutcome {
    match rest {
        CdtOutcome::Parsed(p) => CdtOutcome::Parsed(prefix + p),
        other => other,
    }
}

/// The decoded fields of one block.
pub enum Block {
    Data {
        pilot: u16,
        sync1: u16,
        sync2: u16,
        zero: u16,
        one: u16,
        count: u16,
        used: u8,
        start: usize,
        length: usize,
        pause: u16,
    },
    Pause { pause: u16, next: usize },
    Text { next: usize },
}

/// A cassette player loaded with the pulses of a tape image.
#[derive(Debug)]
pub struct TapePlayer {
    pub durations: VecDeque<Pulse>,
    pub ear: bool,
    pub playing: bool,
}

/// Consumes `cycles` units of tape time from `d`, starting from EAR level
/// `ear`: whole pulses are dropped (each sets the EAR level as it ends) and
/// a pulse longer than what is left is shortened.
pub open spec fn spec_consume(d: Seq<Pulse>, ear: bool, cycles: int) -> (Seq<Pulse>, bool)
    decreases d.len(),
{
    if cycles <= 0 || d.len() == 0 {
        (d, ear)
    } else if spec_duration(d[0]) > cycles {
        (d.update(0, spec_with_duration(d[0], (spec_duration(d[0]) - cycles) as u64)), ear)
    } else {
        spec_consume(d.drop_first(), spec_ear_after(d[0], ear), cycles - spec_duration(d[0]))
    }
}

impl TapePlayer {
    /// Decodes the block whose id is at `idx`.
    pub fn decode_block(data: &[u8], idx: usize) -> (r: Result<Block, TapeError>)
        requires
            idx < data@.len(),
        ensures
            match spec_block(data@, idx as int) {
                BlockOutcome::Decoded(p, next) => match r {
                    Ok(Block::Data { pilot, sync1, sync2, zero, one, count, used, start, length, pause }) => {
                        &&& start + length == next
                        &&& p == data_block_pulses(
                            pilot as int,
                            sync1 as int,
                            sync2 as int,
                            zero as int,
                            one as int,
                            count as int,
                            used as int,
                            data@.subrange(start as int, start + length),
                            pause as int,
                        )
                        &&& used <= 8
                        &&& data@[idx as int] == 0x10 ==> {
                            &&& pilot == 2168 && sync1 == 667 && sync2 == 735
                            &&& zero == 855 && one == 1710 && used == 8
                            &&& start == idx + 5
                            &&& pause == le16(data@, idx + 1)
                            &&& count == (if data@[start as int] < 128 { 8063int } else { 3223 })
                        }
                        &&& data@[idx as int] == 0x11 ==> {
                            &&& pilot == le16(data@, idx + 1) && sync1 == le16(data@, idx + 3)
                            &&& sync2 == le16(data@, idx + 5) && zero == le16(data@, idx + 7)
                            &&& one == le16(data@, idx + 9) && count == le16(data@, idx + 11)
                            &&& used == used_bits(data@[idx + 13]) && pause == le16(data@, idx + 14)
                            &&& start == idx + 19
                        }
                    },
                    Ok(Block::Pause { pause, next: n }) => n == next && p == pause_pulses(pause as int)
                        && pause == le16(data@, idx + 1),
                    Ok(Block::Text { next: n }) => n == next && p == Seq::<Pulse>::empty(),
                    Err(_) => false,
                },
                BlockOutcome::Rejected(e) => r == Err::<Block, TapeError>(e),
            },
    {
        let block_type = data[idx];
        let i = idx + 1;
        if block_type == 0x10 {
            if data.len() - i < 4 {
                return Err(TapeError::Truncated);
            }
            let pause = read_le16(data, i);
            let length = read_le16(data, i + 2) as usize;
            let start = i + 4;
            if length > data.len() - start || start >= data.len() {
                return Err(TapeError::Truncated);
            }
            let flag = data[start];
            let count: u16 = if flag < 128 { 8063 } else { 3223 };
            Ok(Block::Data {
                pilot: 2168,
                sync1: 667,
                sync2: 735,
                zero: 855,
                one: 1710,
                count,
                used: 8,
                start,
                length,
                pause,
            })
        } else if block_type == 0x11 {
            if data.len() - i < 18 {
                return Err(TapeError::Truncated);
            }
            let pilot = read_le16(data, i);
            let sync1 = read_le16(data, i + 2);
            let sync2 = read_le16(data, i + 4);
            let zero = read_le16(data, i + 6);
            let one = read_le16(data, i + 8);
            let count = read_le16(data, i + 10);
            let used = if data[i + 12] > 8 { 8 } else { data[i + 12] };
            let pause = read_le16(data, i + 13);
            let length = read_le24(data, i + 15);
            let start = i + 18;
            if length > data.len() - start {
                return Err(TapeError::Truncated);
            }
            Ok(Block::Data { pilot, sync1, sync2, zero, one, count, used, start, length, pause })
        } else if block_type == 0x20 {
            if data.len() - i < 2 {
                return Err(TapeError::Truncated);
            }
            let pause = read_le16(data, i);
            Ok(Block::Pause { pause, next: i + 2 })
        } else if block_type == 0x30 {
            if data.len() - i < 1 {
                return Err(TapeError::Truncated);
            }
            if data[i] as usize > data.len() - i - 1 {
                return Err(TapeError::Truncated);
            }
            let next = i + 1 + data[i] as usize;
            if next > data.len() {
                return Err(TapeError::Truncated);
            }
            Ok(Block::Text { next })
        } else {
            Err(TapeError::UnknownBlockId(block_type))
        }
    }

    /// Reads a CDT tape image into the pulses it plays. The player starts
    /// stopped, with EAR low.
    pub fn from_cdt(data: &[u8]) -> (r: Result<Self, TapeError>)
        ensures
            match spec_parse_cdt(data@) {
                CdtOutcome::Parsed(p) => match r {
                    Ok(player) => player.durations@ == p && !player.ear && !player.playing,
                    Err(_) => false,
                },
                CdtOutcome::Rejected(e) => match r {
                    Ok(_) => false,
                    Err(e2) => e2 == e,
                },
            },
    {
        if data.len() < 10 {
            return Err(TapeError::Truncated);
        }
        let sig: [u8; 8] = [0x5A, 0x58, 0x54, 0x61, 0x70, 0x65, 0x21, 0x1A];
        assert(sig@ == cdt_signature());
        if !has_prefix(data, &sig) {
            return Err(TapeError::InvalidHeader);
        }
        if data[8] != 1 || data[9] > 20 {
            return Err(TapeError::InvalidHeader);
        }
        let mut durations: VecDeque<Pulse> = VecDeque::new();
        let mut idx: usize = 10;
        while idx < data.len()
            invariant
                10 <= idx <= data@.len(),
                spec_parse_cdt(data@) == prepend(durations@, spec_blocks(data@, idx as int)),
            decreases data@.len() - idx,
        {
            proof {
                lemma_block_advances(data@, idx as int);
            }
            let ghost before = durations@;
            match Self::decode_block(data, idx) {
                Ok(Block::Data { pilot, sync1, sync2, zero, one, count, used, start, length, pause }) => {
                    add_data_block(
                        data,
                        start,
                        &mut durations,
                        pilot,
                        sync1,
                        sync2,
                        zero,
                        one,
                        count,
                        used,
                        length,
                        pause,
                    );
                    proof {
                        lemma_prepend_assoc(before, spec_block_pulses(data@, idx as int), spec_blocks(data@, start + length));
                    }
                    idx = start + length;
                },
                Ok(Block::Pause { pause, next }) => {
                    if pause > 0 {
                        durations.push_back(Pulse::new_low(3500 * pause as u64));
                    }
                    proof {
                        assert(durations@ =~= before + pause_pulses(pause as int));
                        lemma_prepend_assoc(before, pause_pulses(pause as int), spec_blocks(data@, next as int));
                    }
                    idx = next;
                },
                Ok(Block::Text { next }) => {
                    proof {
                        assert(before + Seq::<Pulse>::empty() =~= before);
                    }
                    idx = next;
                },
                Err(e) => {
                    return Err(e);
                },
            }
        }
        proof {
            assert(durations@ + Seq::<Pulse>::empty() =~= durations@);
        }
        Ok(Self { durations, ear: false, playing: false })
    }

    /// Plays `cycles` ticks of tape while playing; a stopped player, or one
    /// with nothing left, does not move.
    pub fn advance(&mut self, cycles: u64)
        requires
            cycles * ZX_SCALE <= u64::MAX,
        ensures
            ({
                let (d, ear) = spec_consume(
                    old(self).durations@,
                    old(self).ear,
                    cycles * ZX_SCALE,
                );
                if old(self).spec_is_playing() {
                    final(self).durations@ == d && final(self).ear == ear && final(self).playing
                        == old(self).playing
                } else {
                    *final(self) == *old(self)
                }
            }),
    {
        if !self.is_playing() {
            return;
        }
        let mut cycles = cycles * ZX_SCALE;
        let ghost total = cycles as int;
        while cycles > 0 && self.durations.len() > 0
            invariant
                spec_consume(old(self).durations@, old(self).ear, total) == spec_consume(
                    self.durations@,
                    self.ear,
                    cycles as int,
                ),
                self.playing == old(self).playing,
            decreases self.durations@.len(), cycles,
        {
            let pulse = self.durations[0];
            let d = pulse.duration();
            if d > cycles {
                let ghost before = self.durations@;
                let _ = self.durations.pop_front();
                self.durations.push_front(pulse.with_duration(d - cycles));
                proof {
                    assert(self.durations@ =~= before.update(
                        0,
                        spec_with_duration(before[0], (spec_duration(before[0]) - cycles) as u64),
                    ));
                }
                cycles = 0;
            } else {
                let ghost before = self.durations@;
                cycles = cycles - d;
                self.ear = match pulse {
                    Pulse::Toggle(_) => !self.ear,
                    Pulse::Low(_) => false,
                    Pulse::High(_) => true,
                };
                let _ = self.durations.pop_front();
                proof {
                    assert(self.durations@ =~= before.drop_first());
                }
            }
        }
    }

    pub fn ear(&self) -> (r: bool)
        ensures
            r == self.ear,
    {
        self.ear
    }

    /// Playing: started and not at the end of the tape.
    pub open spec fn spec_is_playing(&self) -> bool {
        self.playing && self.durations@.len() > 0
    }

    pub fn is_playing(&self) -> (r: bool)
        ensures
            r == self.spec_is_playing(),
    {
        self.playing && self.durations.len() > 0
    }

    pub fn play(&mut self)
        ensures
            *final(self) == (TapePlayer { playing: true, ..*old(self) }),
    {
        self.playing = true;
    }

    pub fn stop(&mut self)
        ensures
            *final(self) == (TapePlayer { playing: false, ..*old(self) }),
    {
        self.playing = false;
    }
}

/// The pulses the block at `idx` decodes to (none when it does not decode).
pub open spec fn spec_block_pulses(data: Seq<u8>, idx: int) -> Seq<Pulse> {
    match spec_block(data, idx) {
        BlockOutcome::Decoded(p, _) => p,
        _ => seq![],
    }
}

/// Prepending in two steps is prepending the concatenation.
pub proof fn lemma_prepend_assoc(a: Seq<Pulse>, b: Seq<Pulse>, rest: CdtOutcome)
    ensures
        prepend(a + b, rest) == prepend(a, prepend(b, rest)),
{
    match rest {
        CdtOutcome::Parsed(p) => {
            assert((a + b) + p =~= a + (b + p));
        },
        _ => {},
    }
}

/// Appends the pulses of a data block whose bytes are
/// `data[start..start + length]` to `durations`.
pub fn add_data_block(
    data: &[u8],
    start: usize,
    durations: &mut VecDeque<Pulse>,
    pilot: u16,
    sync1: u16,
    sync2: u16,
    zero: u16,
    one: u16,
    pulses: u16,
    used_bits: u8,
    length: usize,
    pause: u16,
)
    requires
        start + length <= data@.len(),
        length > 0 ==> used_bits <= 8,
    ensures
        final(durations)@ == old(durations)@ + data_block_pulses(
            pilot as int,
            sync1 as int,
            sync2 as int,
            zero as int,
            one as int,
            pulses as int,
            used_bits as int,
            data@.subrange(start as int, start + length),
            pause as int,
        ),
{
    let ghost base = durations@;
    let ghost block = data@.subrange(start as int, start + length);
    let mut k: u16 = 0;
    while k < pulses
        invariant
            k <= pulses,
            durations@ == base + Seq::new(k as nat, |i: int| toggle(pilot as int)),
        decreases pulses - k,
    {
        durations.push_back(Pulse::new_toggle(pilot as u64));
        k = k + 1;
        proof {
            assert(durations@ =~= base + Seq::new(k as nat, |i: int| toggle(pilot as int)));
        }
    }
    durations.push_back(Pulse::new_toggle(sync1 as u64));
    durations.push_back(Pulse::new_toggle(sync2 as u64));
    let ghost base2 = durations@;
    proof {
        assert(base2 =~= base + Seq::new(pulses as nat, |i: int| toggle(pilot as int)) + seq![
            toggle(sync1 as int),
            toggle(sync2 as int),
        ]);
        assert(bytes_pulses(block, 0, used_bits as int, zero as int, one as int) =~= Seq::<Pulse>::empty());
        assert(base2 + bytes_pulses(block, 0, used_bits as int, zero as int, one as int) =~= base2);
    }
    let dl = data.len();
    let mut n: usize = 0;
    while n < length
        invariant
            dl == data@.len(),
            start + length <= data@.len(),
            length > 0 ==> used_bits <= 8,
            block == data@.subrange(start as int, start + length),
            n <= length,
            durations@ == base2 + bytes_pulses(block, n as int, used_bits as int, zero as int, one as int),
        decreases length - n,
    {
        assert(start + n < data@.len());
        let byte = data[start + n];
        let used: u8 = if n + 1 == length { used_bits } else { 8 };
        let ghost base3 = durations@;
        proof {
            assert(bit_pulses(byte, 0, zero as int, one as int) =~= Seq::<Pulse>::empty());
            assert(base3 + bit_pulses(byte, 0, zero as int, one as int) =~= base3);
        }
        let mut m: u8 = 0;
        while m < used
            invariant
                used <= 8,
                m <= used,
                durations@ == base3 + bit_pulses(byte, m as int, zero as int, one as int),
            decreases used - m,
        {
            let bit: u8 = 7 - m;
            let p: u16 = if ((byte >> bit) & 1) != 0 { one } else { zero };
            durations.push_back(Pulse::new_toggle(p as u64));
            durations.push_back(Pulse::new_toggle(p as u64));
            proof {
                assert(bit == (8 - (m + 1)) as u8);
                assert(durations@ =~= base3 + bit_pulses(byte, m + 1, zero as int, one as int));
            }
            m = m + 1;
        }
        proof {
            assert(block[n as int] == byte);
            assert(durations@ =~= base2 + bytes_pulses(block, n + 1, used_bits as int, zero as int, one as int));
        }
        n = n + 1;
    }
    if pause > 0 {
        durations.push_back(Pulse::new_low(3500 * pause as u64));
    }
    proof {
        assert(durations@ =~= old(durations)@ + data_block_pulses(
            pilot as int,
            sync1 as int,
            sync2 as int,
            zero as int,
            one as int,
            pulses as int,
            used_bits as int,
            block,
            pause as int,
        ));
    }
}

/// Tape time adds up: playing `a` units and then `b` more leaves the tape
/// and the EAR level exactly where playing `a + b` units at once does.
pub proof fn law_tape_time_additive(d: Seq<Pulse>, ear: bool, a: int, b: int)
    requires
        a >= 0,
        b >= 0,
    ensures
        ({
            let (d1, e1) = spec_consume(d, ear, a);
            spec_consume(d1, e1, b) == spec_consume(d, ear, a + b)
        }),
    decreases d.len(),
{
    if a == 0 || d.len() == 0 {
    } else if spec_duration(d[0]) > a {
        let d1 = d.update(0, spec_with_duration(d[0], (spec_duration(d[0]) - a) as u64));
        assert(spec_duration(d1[0]) == spec_duration(d[0]) - a);
        assert(spec_ear_after(d1[0], ear) == spec_ear_after(d[0], ear));
        assert(d1.drop_first() =~= d.drop_first());
        if b > 0 && spec_duration(d1[0]) > b {
            assert(d1.update(0, spec_with_duration(d1[0], (spec_duration(d1[0]) - b) as u64)) =~= d.update(
                0,
                spec_with_duration(d[0], (spec_duration(d[0]) - (a + b)) as u64),
            ));
        }
    } else {
        law_tape_time_additive(d.drop_first(), spec_ear_after(d[0], ear), a - spec_duration(d[0]), b);
    }
}

/// Playing longer than the total length of the remaining pulses runs the
/// tape to its end.
pub proof fn law_tape_runs_out(d: Seq<Pulse>, ear: bool, cycles: int)
    requires
        cycles > total_duration(d),
    ensures
        spec_consume(d, ear, cycles).0.len() == 0,
    decreases d.len(),
{
    if d.len() > 0 {
        assert(total_duration(d) == spec_duration(d[0]) + total_duration(d.drop_first()));
        lemma_total_duration_nonnegative(d.drop_first());
        law_tape_runs_out(d.drop_first(), spec_ear_after(d[0], ear), cycles - spec_duration(d[0]));
    }
}

/// A total length is never negative.
proof fn lemma_total_duration_nonnegative(d: Seq<Pulse>)
    ensures
        total_duration(d) >= 0,
    decreases d.len(),
{
    if d.len() > 0 {
        lemma_total_duration_nonnegative(d.drop_first());
    }
}

/// The time the pulses `d` last together.
pub open spec fn total_duration(d: Seq<Pulse>) -> int
    decreases d.len(),
{
    if d.len() == 0 {
        0
    } else {
        spec_duration(d[0]) + total_duration(d.drop_first())
    }
}

} // verus!
