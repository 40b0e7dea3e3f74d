//! The container header: an 8-byte fixed layout, its validation and the
//! frame-rate quantization rules.

use vstd::prelude::*;

verus! {

/// Number of bytes in an encoded header.
pub const HEADER_SIZE: usize = 8;

/// Pixel encoding of the frame data.
#[derive(Debug, Clone, Copy, PartialEq, Eq, Structural)]
pub struct Encoding(pub u8);

/// Code of the 8-bit-per-channel RGB encoding.
pub const ENCODING_RGB888: u8 = 0;

/// Code of the big-endian RGB565 encoding.
pub const ENCODING_RGB565BE: u8 = 1;

impl Encoding {
    pub fn rgb888() -> (r: Self)
        ensures
            r.0 == ENCODING_RGB888,
    {
        Self(ENCODING_RGB888)
    }

    pub fn rgb565be() -> (r: Self)
        ensures
            r.0 == ENCODING_RGB565BE,
    {
        Self(ENCODING_RGB565BE)
    }
}

/// Format version.
#[derive(Debug, Clone, Copy, PartialEq, Eq, Structural)]
pub struct Version(pub u8);

/// The only version this library reads and writes.
pub const VERSION_ZERO: u8 = 0;

impl Version {
    pub fn zero() -> (r: Self)
        ensures
            r.0 == VERSION_ZERO,
    {
        Self(VERSION_ZERO)
    }
}

/// The two leading bytes of every container.
#[derive(Debug, Clone, Copy, PartialEq, Eq)]
pub struct MagicBytes(pub [u8; 2]);

/// First magic byte, ASCII `L`.
pub const MAGIC_0: u8 = 0x4c;

/// Second magic byte, ASCII `U`.
pub const MAGIC_1: u8 = 0x55;

impl MagicBytes {
    /// The magic bytes `"LU"`.
    pub fn correct() -> (r: Self)
        ensures
            r.0@ == seq![MAGIC_0, MAGIC_1],
    {
        Self([MAGIC_0, MAGIC_1])
    }
}

/// Little-endian value of two bytes.
pub open spec fn le_u16(lo: u8, hi: u8) -> int {
    lo as int + 256 * hi as int
}

/// Number of frames, stored as a little-endian `u16`.
#[derive(Debug, Clone, Copy, PartialEq, Eq)]
pub struct NumFrames(pub [u8; 2]);

impl NumFrames {
    pub fn from_u16(n: u16) -> (r: Self)
        ensures
            r.0@.len() == 2,
            le_u16(r.0[0], r.0[1]) == n,
    {
        Self([(n % 256) as u8, (n / 256) as u8])
    }

    pub fn as_u16(&self) -> (r: u16)
        ensures
            r == le_u16(self.0[0], self.0[1]),
    {
        self.0[0] as u16 + 256 * (self.0[1] as u16)
    }
}

/// Whether `rate` frames per second can be played at side length `size`.
pub open spec fn rate_supported(rate: u8, size: u8) -> bool {
    match rate {
        1 | 2 | 3 | 4 | 5 | 6 | 8 => true,
        10 | 12 => size == 60 || size == 120,
        15 | 20 | 24 => size == 60,
        _ => false,
    }
}

/// Whether `size` is one of the three side lengths the format knows.
pub open spec fn size_supported(size: u8) -> bool {
    size == 60 || size == 120 || size == 240
}

/// First stage of quantization: snap a raw rate to a display-friendly one.
pub open spec fn bucket_rate(rate: u8) -> u8 {
    if rate == 0 {
        1
    } else if rate <= 6 {
        rate
    } else if rate <= 8 {
        8
    } else if rate <= 11 {
        10
    } else if rate <= 13 {
        12
    } else if rate <= 16 {
        15
    } else if 19 <= rate <= 21 {
        20
    } else if 22 <= rate <= 26 {
        24
    } else {
        15
    }
}

/// Second stage of quantization: the ceiling that the side length imposes.
pub open spec fn clamp_rate(rate: u8, size: u8) -> u8 {
    if size == 120 && rate > 12 {
        12
    } else if size == 240 && rate > 4 {
        4
    } else {
        rate
    }
}

/// The quantized rate for a raw rate at a supported side length.
pub open spec fn quantized_rate(rate: u8, size: u8) -> u8 {
    clamp_rate(bucket_rate(rate), size)
}

/// Quantization always lands on a rate that the side length supports.
pub proof fn lemma_quantized_is_supported(rate: u8, size: u8)
    requires
        size_supported(size),
    ensures
        rate_supported(quantized_rate(rate, size), size),
{
}

/// Frames per second.
#[derive(Debug, Clone, Copy, PartialEq, Eq, Structural)]
pub struct FrameRate(pub u8);

impl FrameRate {
    /// Whether the value is a supported frame rate at side length `size`.
    pub fn is_supported(self, size: u8) -> (r: bool)
        ensures
            r == rate_supported(self.0, size),
    {
        match self.0 {
            1 | 2 | 3 | 4 | 5 | 6 | 8 => true,
            10 | 12 => size == 60 || size == 120,
            15 | 20 | 24 => size == 60,
            _ => false,
        }
    }

    /// Replace the rate by the nearest one that can be played at `size`.
    /// Fails, leaving the rate as it was, when `size` is not supported.
    pub fn make_nearest_supported(&mut self, size: Size) -> (r: Result<(), Error>)
        ensures
            size_supported(size.0) ==> r is Ok && final(self).0 == quantized_rate(old(self).0, size.0),
            !size_supported(size.0) ==> r == Err::<(), Error>(Error::UnsupportedSize(size))
                && *final(self) == *old(self),
    {
        let mut frame_rate: u8 = match self.0 {
            // a rate of zero would stall playback forever
            0 => 1,
            x @ 1..=6 => x,
            7..=8 => 8,
            9..=11 => 10,
            12..=13 => 12,
            14..=16 => 15,
            19..=21 => 20,
            22..=26 => 24,
            // higher than anything supported
            _ => 15,
        };
        match size.0 {
            60 => (),
            120 => if frame_rate > 12 {
                frame_rate = 12;
            },
            240 => if frame_rate > 4 {
                frame_rate = 4;
            },
            _ => return Err(Error::UnsupportedSize(size)),
        };
        self.0 = frame_rate;
        Ok(())
    }
}

/// Side length of the square frames, in pixels.
#[derive(Debug, Clone, Copy, PartialEq, Eq, Structural)]
pub struct Size(pub u8);

impl Size {
    pub fn is_supported(self) -> (r: bool)
        ensures
            r == size_supported(self.0),
    {
        match self.0 {
            60 | 120 | 240 => true,
            _ => false,
        }
    }
}

/// The container header.
#[derive(Debug, Clone, Copy, PartialEq, Eq)]
pub struct Header {
    pub magic: MagicBytes,
    pub version: Version,
    pub encoding: Encoding,
    pub size: Size,
    pub frame_rate: FrameRate,
    pub n_frames: NumFrames,
}

/// Why a header was rejected.
#[derive(Debug, Clone, Copy, PartialEq, Eq)]
pub enum Error {
    WrongMagicBytes(MagicBytes),
    UnknownVersion(Version),
    UnknownEncoding(Encoding),
    UnsupportedSize(Size),
    UnsupportedFrameRate(FrameRate),
}

/// The byte layout of a header.
pub open spec fn encoded(h: Header) -> Seq<u8> {
    h.magic.0@ + seq![
        h.version.0,
        h.encoding.0,
        h.size.0,
        h.frame_rate.0,
        h.n_frames.0[0],
        h.n_frames.0[1],
    ]
}

/// Whether `code` names one of the two known encodings.
pub open spec fn encoding_known(code: u8) -> bool {
    code == ENCODING_RGB888 || code == ENCODING_RGB565BE
}

/// A header that decoding accepts.
pub open spec fn valid_header(h: Header) -> bool {
    &&& h.magic.0@ == seq![MAGIC_0, MAGIC_1]
    &&& h.version.0 == VERSION_ZERO
    &&& encoding_known(h.encoding.0)
    &&& size_supported(h.size.0)
    &&& rate_supported(h.frame_rate.0, h.size.0)
}

/// What decoding the 8 bytes `b` yields: the first check that fails, in the
/// order magic, version, encoding, size, frame rate, names the error; when all
/// pass, the header whose layout is `b`.
pub open spec fn decoded_as(b: Seq<u8>, r: Result<Header, Error>) -> bool {
    if b.subrange(0, 2) != seq![MAGIC_0, MAGIC_1] {
        r matches Err(Error::WrongMagicBytes(m)) && m.0@ == b.subrange(0, 2)
    } else if b[2] != VERSION_ZERO {
        r == Err::<Header, Error>(Error::UnknownVersion(Version(b[2])))
    } else if !encoding_known(b[3]) {
        r == Err::<Header, Error>(Error::UnknownEncoding(Encoding(b[3])))
    } else if !size_supported(b[4]) {
        r == Err::<Header, Error>(Error::UnsupportedSize(Size(b[4])))
    } else if !rate_supported(b[5], b[4]) {
        r == Err::<Header, Error>(Error::UnsupportedFrameRate(FrameRate(b[5])))
    } else {
        r matches Ok(h) && encoded(h) == b
    }
}

impl Header {
    /// Decode and validate a header.
    pub fn decode(bytes: &[u8; HEADER_SIZE]) -> (r: Result<Header, Error>)
        ensures
            decoded_as(bytes@, r),
    {
        let magic = MagicBytes([bytes[0], bytes[1]]);
        if bytes[0] != MAGIC_0 || bytes[1] != MAGIC_1 {
            assert(magic.0@ =~= bytes@.subrange(0, 2));
            return Err(Error::WrongMagicBytes(magic));
        }
        assert(bytes@.subrange(0, 2) =~= seq![MAGIC_0, MAGIC_1]);
        let version = Version(bytes[2]);
        if version.0 != VERSION_ZERO {
            return Err(Error::UnknownVersion(version));
        }
        let encoding = Encoding(bytes[3]);
        if encoding.0 != ENCODING_RGB888 && encoding.0 != ENCODING_RGB565BE {
            return Err(Error::UnknownEncoding(encoding));
        }
        let size = Size(bytes[4]);
        if !size.is_supported() {
            return Err(Error::UnsupportedSize(size));
        }
        let frame_rate = FrameRate(bytes[5]);
        if !frame_rate.is_supported(size.0) {
            return Err(Error::UnsupportedFrameRate(frame_rate));
        }
        let header = Header {
            magic,
            version,
            encoding,
            size,
            frame_rate,
            n_frames: NumFrames([bytes[6], bytes[7]]),
        };
        assert(encoded(header) =~= bytes@);
        Ok(header)
    }

    /// The byte layout of the header. No validation is performed.
    pub fn as_bytes(&self) -> (r: [u8; HEADER_SIZE])
        ensures
            r@ == encoded(*self),
    {
        let r = [
            self.magic.0[0],
            self.magic.0[1],
            self.version.0,
            self.encoding.0,
            self.size.0,
            self.frame_rate.0,
            self.n_frames.0[0],
            self.n_frames.0[1],
        ];
        assert(r@ =~= encoded(*self));
        r
    }
}


/// Round trip: decoding the layout of a valid header gives exactly that header.
pub proof fn lemma_decode_encode(h: Header, r: Result<Header, Error>)
    requires
        valid_header(h),
        decoded_as(encoded(h), r),
    ensures
        r == Ok::<Header, Error>(h),
{
    let b = encoded(h);
    assert(b.subrange(0, 2) =~= h.magic.0@);
    let h2 = r->Ok_0;
    let b2 = encoded(h2);
    assert(b2[0] == h2.magic.0[0] && b2[1] == h2.magic.0[1]);
    assert(h2.magic.0 =~= h.magic.0);
    assert(b2[6] == h2.n_frames.0[0] && b2[7] == h2.n_frames.0[1]);
    assert(h2.n_frames.0 =~= h.n_frames.0);
}

/// Mutation rejection: replacing one of the magic, version, encoding, size or
/// frame-rate bytes of a valid header's layout by a value that is wrong for
/// that field makes decoding fail with that field's error.
pub proof fn lemma_mutation_rejected(h: Header, i: int, v: u8, r: Result<Header, Error>)
    requires
        valid_header(h),
        0 <= i < 6,
        i < 2 ==> v != encoded(h)[i],
        i == 2 ==> v != VERSION_ZERO,
        i == 3 ==> !encoding_known(v),
        i == 4 ==> !size_supported(v),
        i == 5 ==> !rate_supported(v, h.size.0),
        decoded_as(encoded(h).update(i, v), r),
    ensures
        i < 2 ==> r matches Err(Error::WrongMagicBytes(_)),
        i == 2 ==> r == Err::<Header, Error>(Error::UnknownVersion(Version(v))),
        i == 3 ==> r == Err::<Header, Error>(Error::UnknownEncoding(Encoding(v))),
        i == 4 ==> r == Err::<Header, Error>(Error::UnsupportedSize(Size(v))),
        i == 5 ==> r == Err::<Header, Error>(Error::UnsupportedFrameRate(FrameRate(v))),
{
    let b = encoded(h).update(i, v);
    if i < 2 {
        assert(b.subrange(0, 2)[i] != seq![MAGIC_0, MAGIC_1][i]);
    } else {
        assert(b.subrange(0, 2) =~= seq![MAGIC_0, MAGIC_1]);
    }
}

} // verus!
