use vstd::prelude::*;

use crate::crtc::{law_phys_address_layout, spec_phys_address, Crtc};
use crate::gate_array::{spec_palette_color, GateArray, ScreenMode};
use crate::memory::MemoryReader;

verus! {

pub const WINDOW_WIDTH: usize = 640;
pub const WINDOW_HEIGHT: usize = 200;

/// Number of pixels in the frame buffer.
pub const FRAME_PIXELS: usize = 128000;

/// The frame buffer the video output paints into, one 0xRRGGBB word per pixel.
pub struct Video {
    pub buffer: Vec<u32>,
}

/// Pixels per byte in a screen mode.
pub open spec fn spec_pixels_per_byte(mode: ScreenMode) -> int {
    match mode {
        ScreenMode::Mode0 => 2,
        ScreenMode::Mode1 => 4,
        ScreenMode::Mode2 => 8,
        ScreenMode::Mode3 => 2,
    }
}

/// The pen of pixel `p` of a screen byte: the pen bits of a pixel are
/// interleaved across the byte (mode 0: bits 7-p, 3-p, 5-p, 1-p from low to
/// high pen bit; mode 1: bits 7-p and 3-p; mode 2: bit 7-p; mode 3: bits
/// 7-p and 3-p).
pub open spec fn spec_pixel_pen(mode: ScreenMode, byte: u8, p: u8) -> u8 {
    match mode {
        ScreenMode::Mode0 => {
            let highest = (byte >> ((1 - p) as u8)) & 1;
            let high = (byte >> ((5 - p) as u8)) & 1;
            let low = (byte >> ((3 - p) as u8)) & 1;
            let lowest = (byte >> ((7 - p) as u8)) & 1;
            (highest << 3u8) | (high << 2u8) | (low << 1u8) | lowest
        },
        ScreenMode::Mode1 => {
            let low = (byte >> ((7 - p) as u8)) & 1;
            let high = (byte >> ((3 - p) as u8)) & 1;
            (high << 1u8) | low
        },
        ScreenMode::Mode2 => (byte >> ((7 - p) as u8)) & 1,
        ScreenMode::Mode3 => {
            let low = (byte >> ((3 - p) as u8)) & 1;
            let lowest = (byte >> ((7 - p) as u8)) & 1;
            (low << 1u8) | lowest
        },
    }
}

/// The pen shown at position `i` (0-7) of the 8 output pixels of a byte:
/// each byte pixel is stretched to 8 / (pixels per byte) output pixels.
pub open spec fn spec_decoded_pen(mode: ScreenMode, byte: u8, i: int) -> u8 {
    spec_pixel_pen(mode, byte, (i / (8int / spec_pixels_per_byte(mode))) as u8)
}

/// The colour `k` (0-15) of the 16 pixels painted for one character clock:
/// the border ink outside the display, else the two screen bytes at the
/// CRTC address decoded in the current mode.
pub open spec fn spec_video_pixel<R: MemoryReader>(
    crtc: Crtc,
    ga: GateArray,
    ram: R,
    k: int,
) -> u32 {
    if !crtc.spec_dispen() {
        spec_palette_color(ga.palette@[16])
    } else {
        let addr = spec_phys_address(crtc.vma, crtc.c9);
        let byte = ram.byte_at((addr + k / 8) as u16);
        spec_palette_color(ga.palette@[spec_decoded_pen(ga.mode, byte, k % 8) as int])
    }
}

/// The pixel row the beam is on.
pub open spec fn spec_pixel_y(crtc: Crtc) -> int {
    crtc.c4 * (crtc.reg(9) + 1) + crtc.c9
}

/// The first pixel column of the current character.
pub open spec fn spec_pixel_x(crtc: Crtc) -> int {
    crtc.c0 * 16
}

/// The frame buffer after one character clock: the 16 pixels under the beam
/// take their colours when the beam is inside the window; the rest stays.
pub open spec fn spec_paint<R: MemoryReader>(buf: Seq<u32>, crtc: Crtc, ga: GateArray, ram: R) -> Seq<u32> {
    let x = spec_pixel_x(crtc);
    let y = spec_pixel_y(crtc);
    if y >= WINDOW_HEIGHT || x + 16 > WINDOW_WIDTH {
        buf
    } else {
        let start = y * WINDOW_WIDTH + x;
        Seq::new(
            buf.len(),
            |i: int|
                if start <= i < start + 16 {
                    spec_video_pixel(crtc, ga, ram, i - start)
                } else {
                    buf[i]
                },
        )
    }
}

/// The number of pens a screen mode can show.
pub open spec fn spec_mode_colors(mode: ScreenMode) -> int {
    match mode {
        ScreenMode::Mode0 => 16,
        ScreenMode::Mode1 => 4,
        ScreenMode::Mode2 => 2,
        ScreenMode::Mode3 => 4,
    }
}

/// A single bit is 0 or 1.
pub proof fn lemma_bit_fits(byte: u8, s: u8)
    ensures
        (byte >> s) & 1 <= 1,
{
    assert((byte >> s) & 1 <= 1) by (bit_vector);
}

/// Four bits make a pen below 16; two bits a pen below 4.
pub proof fn lemma_pen_fits(a: u8, b: u8, c: u8, d: u8)
    requires
        a <= 1,
        b <= 1,
        c <= 1,
        d <= 1,
    ensures
        (a << 3u8) | (b << 2u8) | (c << 1u8) | d < 16,
        (c << 1u8) | d < 4,
{
    assert((a << 3u8) | (b << 2u8) | (c << 1u8) | d < 16 && (c << 1u8) | d < 4) by (bit_vector)
        requires
            a <= 1,
            b <= 1,
            c <= 1,
            d <= 1,
    ;
}

impl ScreenMode {
    /// Decodes bytes for each ScreenMode. Always returns an array of 8 elements.
    pub fn decode_byte(&self, byte: u8) -> (res: [u8; 8])
        ensures
            forall|i: int| 0 <= i < 8 ==> #[trigger] res@[i] == spec_decoded_pen(*self, byte, i),
            forall|i: int| 0 <= i < 8 ==> #[trigger] res@[i] < 16,
    {
        let mut res = [0xFFu8; 8];
        let pixels: u8 = match self {
            ScreenMode::Mode0 => 2,
            ScreenMode::Mode1 => 4,
            ScreenMode::Mode2 => 8,
            ScreenMode::Mode3 => 2,
        };
        let width: u8 = 8 / pixels;
        let mut pixel_idx: u8 = 0;
        while pixel_idx < pixels
            invariant
                pixels == spec_pixels_per_byte(*self),
                width == 8int / spec_pixels_per_byte(*self),
                pixel_idx <= pixels,
                forall|i: int| 0 <= i < pixel_idx * width ==> #[trigger] res@[i] == spec_decoded_pen(*self, byte, i),
                forall|i: int| 0 <= i < pixel_idx * width ==> #[trigger] res@[i] < 16,
            decreases pixels - pixel_idx,
        {
            let p = pixel_idx;
            let pen: u8 = match self {
                ScreenMode::Mode0 => {
                    let highest = (byte >> (1 - p)) & 1;
                    let high = (byte >> (5 - p)) & 1;
                    let low = (byte >> (3 - p)) & 1;
                    let lowest = (byte >> (7 - p)) & 1;
                    proof {
                        lemma_bit_fits(byte, (1 - p) as u8);
                        lemma_bit_fits(byte, (5 - p) as u8);
                        lemma_bit_fits(byte, (3 - p) as u8);
                        lemma_bit_fits(byte, (7 - p) as u8);
                        lemma_pen_fits(highest, high, low, lowest);
                    }
                    (highest << 3u8) | (high << 2u8) | (low << 1u8) | lowest
                },
                ScreenMode::Mode1 => {
                    let low = (byte >> (7 - p)) & 1;
                    let high = (byte >> (3 - p)) & 1;
                    proof {
                        lemma_bit_fits(byte, (7 - p) as u8);
                        lemma_bit_fits(byte, (3 - p) as u8);
                        lemma_pen_fits(0, 0, high, low);
                    }
                    (high << 1u8) | low
                },
                ScreenMode::Mode2 => {
                    proof {
                        lemma_bit_fits(byte, (7 - p) as u8);
                    }
                    (byte >> (7 - p)) & 1
                },
                ScreenMode::Mode3 => {
                    let low = (byte >> (3 - p)) & 1;
                    let lowest = (byte >> (7 - p)) & 1;
                    proof {
                        lemma_bit_fits(byte, (3 - p) as u8);
                        lemma_bit_fits(byte, (7 - p) as u8);
                        lemma_pen_fits(0, 0, low, lowest);
                    }
                    (low << 1u8) | lowest
                },
            };
            assert(pen == spec_pixel_pen(*self, byte, p));
            let mut j: u8 = 0;
            while j < width
                invariant
                    pixels == spec_pixels_per_byte(*self),
                    width == 8int / spec_pixels_per_byte(*self),
                    pixel_idx < pixels,
                    j <= width,
                    pen == spec_pixel_pen(*self, byte, pixel_idx),
                    pen < 16,
                    forall|i: int| 0 <= i < pixel_idx * width + j ==> #[trigger] res@[i] == spec_decoded_pen(*self, byte, i),
                    forall|i: int| 0 <= i < pixel_idx * width + j ==> #[trigger] res@[i] < 16,
                decreases width - j,
            {
                assert(pixel_idx * width + j < 8) by (nonlinear_arith)
                    requires
                        j < width,
                        pixel_idx < pixels,
                        pixels * width == 8,
                ;
                let k = pixel_idx * width + j;
                assert(k / width == pixel_idx) by (nonlinear_arith)
                    requires
                        k == pixel_idx * width + j,
                        j < width,
                        width > 0,
                ;
                res[k as usize] = pen;
                j = j + 1;
            }
            pixel_idx = pixel_idx + 1;
            assert(pixel_idx * width == (pixel_idx - 1) * width + width) by (nonlinear_arith);
        }
        assert(pixels * width == 8);
        res
    }
}

impl Video {
    /// The frame buffer covers the whole window.
    pub open spec fn wf(&self) -> bool {
        self.buffer@.len() == FRAME_PIXELS
    }

    pub fn new() -> (v: Self)
        ensures
            v.wf(),
            forall|i: int| 0 <= i < FRAME_PIXELS ==> #[trigger] v.buffer@[i] == 0,
    {
        let mut buffer: Vec<u32> = Vec::with_capacity(FRAME_PIXELS);
        let mut i: usize = 0;
        while i < FRAME_PIXELS
            invariant
                i <= FRAME_PIXELS,
                buffer@.len() == i,
                forall|j: int| 0 <= j < i ==> #[trigger] buffer@[j] == 0,
            decreases FRAME_PIXELS - i,
        {
            buffer.push(0);
            i = i + 1;
        }
        Self { buffer }
    }

    pub fn buffer(&self) -> (r: &[u32])
        ensures
            r@ == self.buffer@,
    {
        self.buffer.as_slice()
    }

    /// Blanks the whole frame buffer.
    pub fn clear(&mut self)
        ensures
            final(self).buffer@.len() == old(self).buffer@.len(),
            forall|i: int| 0 <= i < final(self).buffer@.len() ==> #[trigger] final(self).buffer@[i] == 0,
    {
        let n = self.buffer.len();
        let mut i: usize = 0;
        while i < n
            invariant
                n == self.buffer@.len(),
                n == old(self).buffer@.len(),
                i <= n,
                forall|j: int| 0 <= j < i ==> #[trigger] self.buffer@[j] == 0,
            decreases n - i,
        {
            self.buffer.set(i, 0);
            i = i + 1;
        }
    }

    /// Paints the 16 pixels of the current character clock: nothing when the
    /// beam is outside the window; the border ink outside the display area;
    /// otherwise the two screen bytes at the CRTC address in the current mode.
    pub fn tick<R: MemoryReader>(&mut self, crtc: &Crtc, ga: &GateArray, ram: &R)
        requires
            old(self).wf(),
            ram.readable(),
        ensures
            final(self).wf(),
            final(self).buffer@ == spec_paint(old(self).buffer@, *crtc, *ga, *ram),
    {
        self.paint(crtc, ga, ram);
        proof {
            let x = spec_pixel_x(*crtc);
            let y = spec_pixel_y(*crtc);
            if !(y >= WINDOW_HEIGHT || x + 16 > WINDOW_WIDTH) {
                let start = y * WINDOW_WIDTH + x;
                assert forall|i: int| start <= i < start + 16 implies self.buffer@[i] == spec_video_pixel(
                    *crtc,
                    *ga,
                    *ram,
                    i - start,
                ) by {
                    assert(self.buffer@[start + (i - start)] == spec_video_pixel(*crtc, *ga, *ram, i - start));
                }
            }
        }
        assert(self.buffer@ =~= spec_paint(old(self).buffer@, *crtc, *ga, *ram));
    }

    fn paint<R: MemoryReader>(&mut self, crtc: &Crtc, ga: &GateArray, ram: &R)
        requires
            old(self).wf(),
            ram.readable(),
        ensures
            final(self).wf(),
            ({
                let x = spec_pixel_x(*crtc);
                let y = spec_pixel_y(*crtc);
                if y >= WINDOW_HEIGHT || x + 16 > WINDOW_WIDTH {
                    final(self).buffer@ == old(self).buffer@
                } else {
                    let start = y * WINDOW_WIDTH + x;
                    &&& forall|i: int|
                        0 <= i < FRAME_PIXELS && !(start <= i < start + 16)
                            ==> #[trigger] final(self).buffer@[i] == old(self).buffer@[i]
                    &&& forall|k: int|
                        0 <= k < 16 ==> #[trigger] final(self).buffer@[start + k]
                            == spec_video_pixel(*crtc, *ga, *ram, k)
                }
            }),
    {
        let char_x = crtc.c0() as usize;
        let pixel_x = char_x * 16;
        let char_y = crtc.c4() as usize;
        let rows = crtc.register(9) as usize + 1;
        assert(char_y * rows <= 255 * 256) by (nonlinear_arith)
            requires
                char_y <= 255,
                rows <= 256,
        ;
        let pixel_y = char_y * rows + crtc.c9() as usize;
        if pixel_y >= WINDOW_HEIGHT || pixel_x + 16 > WINDOW_WIDTH {
            return;
        }
        let start = pixel_y * WINDOW_WIDTH + pixel_x;
        assert(start + 16 <= FRAME_PIXELS) by (nonlinear_arith)
            requires
                start == pixel_y * 640 + pixel_x,
                pixel_y < 200,
                pixel_x + 16 <= 640,
        ;
        if !crtc.dispen() {
            let border = ga.ink_for_pen(16).color();
            let mut k: usize = 0;
            while k < 16
                invariant
                    self.buffer@.len() == FRAME_PIXELS,
                    start + 16 <= FRAME_PIXELS,
                    k <= 16,
                    border == spec_palette_color(ga.palette@[16]),
                    !crtc.spec_dispen(),
                    forall|i: int|
                        0 <= i < FRAME_PIXELS && !(start <= i < start + k) ==> #[trigger] self.buffer@[i]
                            == old(self).buffer@[i],
                    forall|j: int| 0 <= j < k ==> #[trigger] self.buffer@[start + j] == spec_video_pixel(*crtc, *ga, *ram, j),
                decreases 16 - k,
            {
                self.buffer.set(start + k, border);
                k = k + 1;
            }
            return;
        }
        let mode = ga.mode();
        let addr = crtc.phys_address();
        proof {
            law_phys_address_layout(crtc.vma, crtc.c9);
        }
        let mut byte_idx: usize = 0;
        while byte_idx < 2
            invariant
                self.buffer@.len() == FRAME_PIXELS,
                start + 16 <= FRAME_PIXELS,
                byte_idx <= 2,
                addr == spec_phys_address(crtc.vma, crtc.c9),
                addr <= 0xFFFE,
                mode == ga.mode,
                crtc.spec_dispen(),
                ram.readable(),
                forall|i: int|
                    0 <= i < FRAME_PIXELS && !(start <= i < start + byte_idx * 8) ==> #[trigger] self.buffer@[i]
                        == old(self).buffer@[i],
                forall|j: int| 0 <= j < byte_idx * 8 ==> #[trigger] self.buffer@[start + j] == spec_video_pixel(*crtc, *ga, *ram, j),
            decreases 2 - byte_idx,
        {
            let byte = ram.read_byte(addr + byte_idx as u16);
            let byte_pens = mode.decode_byte(byte);
            let mut idx: usize = 0;
            while idx < 8
                invariant
                    self.buffer@.len() == FRAME_PIXELS,
                    start + 16 <= FRAME_PIXELS,
                    byte_idx < 2,
                    idx <= 8,
                    addr == spec_phys_address(crtc.vma, crtc.c9),
                    addr <= 0xFFFE,
                    mode == ga.mode,
                    crtc.spec_dispen(),
                    byte == ram.byte_at((addr + byte_idx) as u16),
                    forall|i: int| 0 <= i < 8 ==> #[trigger] byte_pens@[i] == spec_decoded_pen(mode, byte, i),
                    forall|i: int| 0 <= i < 8 ==> #[trigger] byte_pens@[i] < 16,
                    forall|i: int|
                        0 <= i < FRAME_PIXELS && !(start <= i < start + byte_idx * 8 + idx) ==> #[trigger] self.buffer@[i]
                            == old(self).buffer@[i],
                    forall|j: int| 0 <= j < byte_idx * 8 + idx ==> #[trigger] self.buffer@[start + j] == spec_video_pixel(*crtc, *ga, *ram, j),
                decreases 8 - idx,
            {
                let pen = byte_pens[idx];
                let c = ga.ink_for_pen(pen).color();
                proof {
                    let j = byte_idx * 8 + idx;
                    assert(j / 8 == byte_idx && j % 8 == idx);
                }
                self.buffer.set(start + byte_idx * 8 + idx, c);
                idx = idx + 1;
            }
            byte_idx = byte_idx + 1;
        }
    }
}

/// Screen modes: a byte holds 2 pixels of 16 pens in mode 0, 4 of 4 in
/// mode 1, 8 of 2 in mode 2 and 2 of 4 in mode 3; each pixel is stretched
/// over 8 / (pixels per byte) of the 8 output pixels of the byte.
#[verifier::spinoff_prover]
pub proof fn law_mode_pixels_and_colors(mode: ScreenMode, byte: u8, i: int)
    requires
        0 <= i < 8,
    ensures
        spec_decoded_pen(mode, byte, i) < spec_mode_colors(mode),
        spec_decoded_pen(mode, byte, i) == spec_pixel_pen(
            mode,
            byte,
            (i * spec_pixels_per_byte(mode) / 8) as u8,
        ),
{
    let p = i / (8int / spec_pixels_per_byte(mode));
    match mode {
        ScreenMode::Mode0 | ScreenMode::Mode3 => {
            assert(8int / spec_pixels_per_byte(mode) == 4);
            assert(p == i / 4 && p == i * 2 / 8 && 0 <= p < 2) by (nonlinear_arith)
                requires
                    p == i / 4,
                    0 <= i < 8,
            ;
        },
        ScreenMode::Mode1 => {
            assert(8int / spec_pixels_per_byte(mode) == 2);
            assert(p == i / 2 && p == i * 4 / 8 && 0 <= p < 4) by (nonlinear_arith)
                requires
                    p == i / 2,
                    0 <= i < 8,
            ;
        },
        ScreenMode::Mode2 => {
            assert(8int / spec_pixels_per_byte(mode) == 1);
            assert(p == i && p == i * 8 / 8 && 0 <= p < 8) by (nonlinear_arith)
                requires
                    p == i / 1,
                    0 <= i < 8,
            ;
        },
    }
    let q = p as u8;
    match mode {
        ScreenMode::Mode0 => {
            lemma_bit_fits(byte, (1 - q) as u8);
            lemma_bit_fits(byte, (5 - q) as u8);
            lemma_bit_fits(byte, (3 - q) as u8);
            lemma_bit_fits(byte, (7 - q) as u8);
            lemma_pen_fits(
                (byte >> ((1 - q) as u8)) & 1,
                (byte >> ((5 - q) as u8)) & 1,
                (byte >> ((3 - q) as u8)) & 1,
                (byte >> ((7 - q) as u8)) & 1,
            );
        },
        ScreenMode::Mode1 => {
            lemma_bit_fits(byte, (7 - q) as u8);
            lemma_bit_fits(byte, (3 - q) as u8);
            lemma_pen_fits(0, 0, (byte >> ((3 - q) as u8)) & 1, (byte >> ((7 - q) as u8)) & 1);
        },
        ScreenMode::Mode2 => {
            lemma_bit_fits(byte, (7 - q) as u8);
        },
        ScreenMode::Mode3 => {
            lemma_bit_fits(byte, (3 - q) as u8);
            lemma_bit_fits(byte, (7 - q) as u8);
            lemma_pen_fits(0, 0, (byte >> ((3 - q) as u8)) & 1, (byte >> ((7 - q) as u8)) & 1);
        },
    }
}

} // verus!
