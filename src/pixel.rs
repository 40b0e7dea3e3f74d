//! Pixel formats: 8-bit RGB and RGBA as read from source images, and 5:6:5
//! packed RGB in native and big-endian byte order.

use vstd::prelude::*;

verus! {

/// Largest 5-bit component value.
pub const MAX_5: u8 = 0b00011111;

/// Largest 6-bit component value.
pub const MAX_6: u8 = 0b00111111;

/// An 8-bit-per-channel RGB pixel.
#[derive(Clone, Copy)]
pub struct Rgb888(pub [u8; 3]);

impl Rgb888 {
    /// Read a slice of bytes that holds RGB888 data as pixels.
    pub fn cast_bytes(bytes: &[u8]) -> (r: Vec<Self>)
        requires
            bytes@.len() % 3 == 0,
        ensures
            r@.len() * 3 == bytes@.len(),
            forall|i: int| 0 <= i < r@.len() ==> #[trigger] r@[i].0@ == bytes@.subrange(3 * i, 3 * i + 3),
    {
        let mut r: Vec<Self> = Vec::new();
        let mut i: usize = 0;
        while i < bytes.len() / 3
            invariant
                bytes@.len() % 3 == 0,
                i <= bytes@.len() / 3,
                r@.len() == i,
                forall|k: int| 0 <= k < i ==> #[trigger] r@[k].0@ == bytes@.subrange(3 * k, 3 * k + 3),
            decreases bytes@.len() / 3 - i,
        {
            let px = Self([bytes[3 * i], bytes[3 * i + 1], bytes[3 * i + 2]]);
            assert(px.0@ =~= bytes@.subrange(3 * i, 3 * i + 3));
            r.push(px);
            i = i + 1;
        }
        r
    }
}

/// An 8-bit-per-channel RGBA pixel.
#[derive(Clone, Copy)]
pub struct Rgba8888(pub [u8; 4]);

impl Rgba8888 {
    pub fn rgba(self) -> (r: [u8; 4])
        ensures
            r == self.0,
    {
        self.0
    }

    /// The color channels, without alpha.
    pub fn rgb(self) -> (r: [u8; 3])
        ensures
            r@ == self.0@.subrange(0, 3),
    {
        let r = [self.0[0], self.0[1], self.0[2]];
        assert(r@ =~= self.0@.subrange(0, 3));
        r
    }

    /// Read a slice of bytes that holds RGBA8888 data as pixels.
    pub fn cast_bytes(bytes: &[u8]) -> (r: Vec<Self>)
        requires
            bytes@.len() % 4 == 0,
        ensures
            r@.len() * 4 == bytes@.len(),
            forall|i: int| 0 <= i < r@.len() ==> #[trigger] r@[i].0@ == bytes@.subrange(4 * i, 4 * i + 4),
    {
        let mut r: Vec<Self> = Vec::new();
        let mut i: usize = 0;
        while i < bytes.len() / 4
            invariant
                bytes@.len() % 4 == 0,
                i <= bytes@.len() / 4,
                r@.len() == i,
                forall|k: int| 0 <= k < i ==> #[trigger] r@[k].0@ == bytes@.subrange(4 * k, 4 * k + 4),
            decreases bytes@.len() / 4 - i,
        {
            let px = Self([bytes[4 * i], bytes[4 * i + 1], bytes[4 * i + 2], bytes[4 * i + 3]]);
            assert(px.0@ =~= bytes@.subrange(4 * i, 4 * i + 4));
            r.push(px);
            i = i + 1;
        }
        r
    }
}

/// Value of a 5:6:5 pixel whose components are within their ranges.
pub open spec fn packed(r_5: u8, g_6: u8, b_5: u8) -> int {
    r_5 as int * 2048 + g_6 as int * 32 + b_5 as int
}

/// A 5:6:5 packed RGB pixel in native byte order.
#[derive(Clone, Copy)]
pub struct Rgb565NE(u16);

impl View for Rgb565NE {
    type V = u16;

    closed spec fn view(&self) -> u16 {
        self.0
    }
}

impl Rgb565NE {
    /// Pack an r, g, b already within the 5 bit, 6 bit and 5 bit max values into a `u16`.
    /// No clamping is performed: bits of an out-of-range component spill into
    /// its neighbour.
    pub fn pack_565(r_5: u8, g_6: u8, b_5: u8) -> (r: Self)
        ensures
            r@ == ((r_5 as u16) << 11u16 | (g_6 as u16) << 5u16 | (b_5 as u16)),
            r_5 <= MAX_5 && g_6 <= MAX_6 && b_5 <= MAX_5 ==> r@ == packed(r_5, g_6, b_5),
    {
        let v: u16 = (r_5 as u16) << 11u16 | (g_6 as u16) << 5u16 | (b_5 as u16);
        if r_5 <= MAX_5 && g_6 <= MAX_6 && b_5 <= MAX_5 {
            let (rr, gg, bb) = (r_5 as u16, g_6 as u16, b_5 as u16);
            assert(rr < 32 && gg < 64 && bb < 32 ==> (rr << 11u16 | gg << 5u16 | bb) == rr * 2048 + gg
                * 32 + bb) by (bit_vector);
        }
        Self(v)
    }

    /// Split into separate `r`, `g`, `b` components. The components are not
    /// scaled back to 8 bits.
    pub fn unpack_565(self) -> (r: [u8; 3])
        ensures
            r@ == seq![(self@ / 2048) as u8, ((self@ / 32) % 64) as u8, (self@ % 32) as u8],
    {
        let v = self.0;
        let r = ((v >> 11u16) & 0b00011111u16) as u8;
        let g = ((v >> 5u16) & 0b00111111u16) as u8;
        let b = (v & 0b00011111u16) as u8;
        assert((v >> 11u16) & 31u16 == v / 2048) by (bit_vector);
        assert((v >> 5u16) & 63u16 == (v / 32) % 64) by (bit_vector);
        assert(v & 31u16 == v % 32) by (bit_vector);
        [r, g, b]
    }

    pub fn from_raw(raw: u16) -> (r: Self)
        ensures
            r@ == raw,
    {
        Self(raw)
    }

    pub fn to_raw(self) -> (r: u16)
        ensures
            r == self@,
    {
        self.0
    }

    /// The same pixel in big-endian byte order.
    pub fn to_be(self) -> (r: Rgb565BE)
        ensures
            r@ == seq![(self@ / 256) as u8, (self@ % 256) as u8],
    {
        Rgb565BE([(self.0 / 256) as u8, (self.0 % 256) as u8])
    }
}

/// Channel value `c` of 8 bits scaled to a component whose largest value is
/// `max`, rounded down and raised to at least 1.
pub open spec fn scaled_channel(c: u8, max: u8) -> int {
    let v = c as int * max as int / 255;
    if v < 1 {
        1
    } else {
        v
    }
}

/// Scale an 8-bit channel to a component whose largest value is `max`,
/// keeping at least 1.
pub fn scale_channel(c: u8, max: u8) -> (r: u8)
    ensures
        r == scaled_channel(c, max),
        r <= max || max == 0,
{
    assert(c as int * max as int <= 255 * 255) by (nonlinear_arith)
        requires c <= 255, max <= 255;
    let v: u32 = c as u32 * max as u32 / 255;
    assert(c as u32 * max as u32 <= 255 * max as u32) by (nonlinear_arith);
    assert(c as u32 * max as u32 / 255 <= max as u32) by (nonlinear_arith)
        requires c as u32 * max as u32 <= 255 * max as u32;
    if v < 1 {
        1
    } else {
        v as u8
    }
}

/// A 5:6:5 packed RGB pixel stored big-endian: high byte first.
#[derive(Clone, Copy)]
pub struct Rgb565BE([u8; 2]);

impl View for Rgb565BE {
    type V = Seq<u8>;

    closed spec fn view(&self) -> Seq<u8> {
        self.0@
    }
}

impl Rgb565BE {
    /// The black pixel.
    pub fn zero() -> (r: Self)
        ensures
            r@ == seq![0u8, 0u8],
    {
        Self([0u8, 0u8])
    }

    pub fn from_raw(raw: [u8; 2]) -> (r: Self)
        ensures
            r@ == raw@,
    {
        Self(raw)
    }

    pub fn to_raw(self) -> (r: [u8; 2])
        ensures
            r@ == self@,
    {
        self.0
    }

    /// Read a slice of bytes that holds big-endian RGB565 data as pixels.
    pub fn cast_bytes(bytes: &[u8]) -> (r: Vec<Self>)
        requires
            bytes@.len() % 2 == 0,
        ensures
            r@.len() * 2 == bytes@.len(),
            forall|i: int| 0 <= i < r@.len() ==> #[trigger] r@[i]@ == bytes@.subrange(2 * i, 2 * i + 2),
    {
        let mut r: Vec<Self> = Vec::new();
        let mut i: usize = 0;
        while i < bytes.len() / 2
            invariant
                bytes@.len() % 2 == 0,
                i <= bytes@.len() / 2,
                r@.len() == i,
                forall|k: int| 0 <= k < i ==> #[trigger] r@[k]@ == bytes@.subrange(2 * k, 2 * k + 2),
            decreases bytes@.len() / 2 - i,
        {
            let px = Self([bytes[2 * i], bytes[2 * i + 1]]);
            assert(px@ =~= bytes@.subrange(2 * i, 2 * i + 2));
            r.push(px);
            i = i + 1;
        }
        r
    }

    /// The bytes of a slice of pixels, in order.
    pub fn slice_as_bytes(slice: &[Self]) -> (r: Vec<u8>)
        requires
            slice@.len() * 2 <= usize::MAX,
        ensures
            r@.len() == 2 * slice@.len(),
            forall|i: int| 0 <= i < slice@.len() ==> r@.subrange(2 * i, 2 * i + 2) == #[trigger] slice@[i]@,
    {
        let mut r: Vec<u8> = Vec::new();
        let mut i: usize = 0;
        while i < slice.len()
            invariant
                slice@.len() * 2 <= usize::MAX,
                i <= slice@.len(),
                r@.len() == 2 * i,
                forall|k: int| 0 <= k < i ==> r@.subrange(2 * k, 2 * k + 2) == #[trigger] slice@[k]@,
            decreases slice@.len() - i,
        {
            let px = slice[i].0;
            let ghost before = r@;
            r.push(px[0]);
            r.push(px[1]);
            assert forall|k: int| 0 <= k < i + 1 implies r@.subrange(2 * k, 2 * k + 2)
                == #[trigger] slice@[k]@ by {
                if k < i {
                    assert(r@.subrange(2 * k, 2 * k + 2) =~= before.subrange(2 * k, 2 * k + 2));
                } else {
                    assert(r@.subrange(2 * k, 2 * k + 2) =~= px@);
                }
            }
            i = i + 1;
        }
        r
    }

    /// The same pixel in native byte order.
    pub fn to_ne(self) -> (r: Rgb565NE)
        ensures
            r@ == self@[0] as int * 256 + self@[1] as int,
    {
        Rgb565NE(self.0[0] as u16 * 256 + self.0[1] as u16)
    }
}

/// Converting to big-endian and back keeps the pixel.
pub proof fn lemma_be_ne_round_trip(p: Rgb565NE, q: Rgb565BE)
    requires
        q@ == seq![(p@ / 256) as u8, (p@ % 256) as u8],
    ensures
        q@[0] as int * 256 + q@[1] as int == p@,
{
}

/// Unpacking a pixel packed from in-range components gives the components back.
pub proof fn lemma_unpack_pack(r_5: u8, g_6: u8, b_5: u8)
    requires
        r_5 <= MAX_5,
        g_6 <= MAX_6,
        b_5 <= MAX_5,
    ensures
        ({
            let v = packed(r_5, g_6, b_5);
            v / 2048 == r_5 && (v / 32) % 64 == g_6 && v % 32 == b_5
        }),
{
}

} // verus!
