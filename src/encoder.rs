//! Building a container from a sequence of decoded RGBA frames.

use vstd::prelude::*;
use crate::codec::{
    Encoding, FrameRate, Header, MagicBytes, NumFrames, Size, Version, ENCODING_RGB565BE,
    MAGIC_0, MAGIC_1, VERSION_ZERO, quantized_rate, le_u16,
};
use crate::pixel::{packed, scale_channel, scaled_channel, Rgb565NE, MAX_5, MAX_6};

verus! {

/// Why a sequence of frames cannot become a container.
#[derive(Debug, Clone, Copy, PartialEq, Eq)]
pub enum EncodeError {
    /// A frame is not 60×60, 120×120 or 240×240 pixels.
    WrongSize { width: u16, height: u16 },
    /// A frame's size differs from the first frame's.
    MixedSizes,
    /// More frames than the header can count.
    TooManyFrames,
    /// No frame at all.
    NoFrames,
}

/// The frame side for a frame of `width` × `height` pixels, if the format has it.
pub open spec fn side_of(width: u16, height: u16) -> Option<u8> {
    if width == height && (width == 60 || width == 120 || width == 240) {
        Some(width as u8)
    } else {
        None
    }
}

/// The big-endian 5:6:5 value of the RGBA pixel that starts at byte `4 * p`.
pub open spec fn pixel_565(rgba: Seq<u8>, p: int) -> int {
    packed(
        scaled_channel(rgba[4 * p], MAX_5) as u8,
        scaled_channel(rgba[4 * p + 1], MAX_6) as u8,
        scaled_channel(rgba[4 * p + 2], MAX_5) as u8,
    )
}

/// Byte `i` of the big-endian 5:6:5 encoding of RGBA data.
pub open spec fn encoded_byte(rgba: Seq<u8>, i: int) -> u8 {
    let v = pixel_565(rgba, i / 2);
    if i % 2 == 0 {
        (v / 256) as u8
    } else {
        (v % 256) as u8
    }
}

/// RGBA data converted to big-endian 5:6:5: each channel is scaled to its
/// component's range, rounded down, and kept at least 1; alpha is dropped.
pub open spec fn encoded_pixels(rgba: Seq<u8>) -> Seq<u8> {
    Seq::new((2 * (rgba.len() / 4)) as nat, |i: int| encoded_byte(rgba, i))
}

/// The frame rate derived from the delay between frames, in hundredths of a
/// second.
pub open spec fn rate_from_delay(delay: u16) -> u8 {
    (100int / (if delay < 1 {
        1
    } else {
        delay as int
    })) as u8
}

/// Abstract state of an encoder.
pub ghost struct EncoderView {
    pub size: Option<u8>,
    pub delay: Option<u16>,
    pub n_frames: nat,
    pub data: Seq<u8>,
}

/// An encoder that holds no frame knows no size or delay yet, and one that
/// holds some knows both, and a size the format has.
pub open spec fn encoder_wf(v: EncoderView) -> bool {
    &&& (v.n_frames == 0) == (v.size is None)
    &&& (v.n_frames == 0) == (v.delay is None)
    &&& v.size matches Some(s) ==> crate::codec::size_supported(s)
    &&& v.n_frames <= u16::MAX
}

/// The frame rate written to the header: the override when one is given,
/// else the rate derived from the first frame's delay, quantized for the size.
pub open spec fn container_rate(v: EncoderView, frame_rate: Option<u8>) -> u8 {
    let raw = match frame_rate {
        Some(r) => r,
        None => rate_from_delay(v.delay->Some_0),
    };
    quantized_rate(raw, v.size->Some_0)
}

/// The container for the frames collected in `v`: the header, then the frames.
pub open spec fn container_bytes(v: EncoderView, frame_rate: Option<u8>) -> Seq<u8> {
    seq![
        MAGIC_0,
        MAGIC_1,
        VERSION_ZERO,
        ENCODING_RGB565BE,
        v.size->Some_0,
        container_rate(v, frame_rate),
        (v.n_frames % 256) as u8,
        (v.n_frames / 256) as u8,
    ] + v.data
}

/// Every container that the encoder finishes starts with a header that
/// decoding accepts, and that header gives back the size, the quantized
/// frame rate and the number of frames.
pub proof fn lemma_container_decodes(
    v: EncoderView,
    frame_rate: Option<u8>,
    r: Result<Header, crate::codec::Error>,
)
    requires
        encoder_wf(v),
        v.n_frames > 0,
        crate::codec::decoded_as(container_bytes(v, frame_rate).subrange(0, 8), r),
    ensures
        r matches Ok(h) && h.size.0 == v.size->Some_0 && h.frame_rate.0 == container_rate(
            v,
            frame_rate,
        ) && le_u16(h.n_frames.0[0], h.n_frames.0[1]) == v.n_frames,
{
    let b = container_bytes(v, frame_rate).subrange(0, 8);
    let raw = match frame_rate {
        Some(x) => x,
        None => rate_from_delay(v.delay->Some_0),
    };
    crate::codec::lemma_quantized_is_supported(raw, v.size->Some_0);
    assert(b.subrange(0, 2) =~= seq![MAGIC_0, MAGIC_1]);
    let h = r->Ok_0;
    assert(crate::codec::encoded(h)[6] == h.n_frames.0[0]);
    assert(crate::codec::encoded(h)[7] == h.n_frames.0[1]);
}

/// Frames collected so far, already converted to the container's pixel format.
pub struct Encoder {
    size: Option<u8>,
    delay: Option<u16>,
    n_frames: u16,
    data: Vec<u8>,
}

impl View for Encoder {
    type V = EncoderView;

    closed spec fn view(&self) -> EncoderView {
        EncoderView {
            size: self.size,
            delay: self.delay,
            n_frames: self.n_frames as nat,
            data: self.data@,
        }
    }
}

/// The bytes of a pixel of the container format, high byte first.
fn pixel_bytes(r: u8, g: u8, b: u8) -> (out: (u8, u8))
    ensures
        ({
            let v = packed(
                scaled_channel(r, MAX_5) as u8,
                scaled_channel(g, MAX_6) as u8,
                scaled_channel(b, MAX_5) as u8,
            );
            out.0 == v / 256 && out.1 == v % 256
        }),
{
    let px = Rgb565NE::pack_565(
        scale_channel(r, MAX_5),
        scale_channel(g, MAX_6),
        scale_channel(b, MAX_5),
    );
    let be = px.to_be().to_raw();
    (be[0], be[1])
}

impl Encoder {
    pub fn new() -> (r: Self)
        ensures
            r@ == (EncoderView { size: None, delay: None, n_frames: 0, data: seq![] }),
            encoder_wf(r@),
    {
        Encoder { size: None, delay: None, n_frames: 0, data: Vec::new() }
    }

    /// Add a frame of `width` × `height` RGBA pixels shown for `delay`
    /// hundredths of a second. The first frame fixes the size and the delay.
    /// On failure nothing is added.
    pub fn push_frame(&mut self, width: u16, height: u16, delay: u16, rgba: &[u8]) -> (r: Result<
        (),
        EncodeError,
    >)
        requires
            rgba@.len() == 4 * width * height,
        ensures
            side_of(width, height) is None ==> r == Err::<(), EncodeError>(
                EncodeError::WrongSize { width, height },
            ),
            side_of(width, height) is Some && old(self)@.size is Some && old(self)@.size
                != side_of(width, height) ==> r == Err::<(), EncodeError>(EncodeError::MixedSizes),
            side_of(width, height) is Some && (old(self)@.size is None || old(self)@.size
                == side_of(width, height)) && old(self)@.n_frames == u16::MAX ==> r == Err::<
                (),
                EncodeError,
            >(EncodeError::TooManyFrames),
            encoder_wf(old(self)@) ==> encoder_wf(final(self)@),
            r is Err ==> final(self)@ == old(self)@,
            r is Ok ==> final(self)@ == (EncoderView {
                size: side_of(width, height),
                delay: if old(self)@.delay is None {
                    Some(delay)
                } else {
                    old(self)@.delay
                },
                n_frames: old(self)@.n_frames + 1,
                data: old(self)@.data + encoded_pixels(rgba@),
            }),
            side_of(width, height) is Some && (old(self)@.size is None || old(self)@.size
                == side_of(width, height)) && old(self)@.n_frames < u16::MAX ==> r is Ok,
    {
        let side: u8 = if width == height && (width == 60 || width == 120 || width == 240) {
            width as u8
        } else {
            return Err(EncodeError::WrongSize { width, height });
        };
        match self.size {
            Some(s) => if s != side {
                return Err(EncodeError::MixedSizes);
            },
            None => {},
        }
        if self.n_frames == u16::MAX {
            return Err(EncodeError::TooManyFrames);
        }
        let len = rgba.len();
        let n_pixels = len / 4;
        let ghost start = self.data@;
        proof {
            vstd::arithmetic::div_mod::lemma_fundamental_div_mod(rgba@.len() as int, 4);
        }
        let mut p: usize = 0;
        while p < n_pixels
            invariant
                n_pixels == rgba@.len() / 4,
                4 * n_pixels <= len,
                len == rgba@.len(),
                p <= n_pixels,
                self.n_frames == old(self).n_frames,
                self.n_frames < u16::MAX,
                self.size == old(self).size,
                self.delay == old(self).delay,
                self.data@.len() == start.len() + 2 * p,
                self.data@.subrange(0, start.len() as int) == start,
                forall|i: int|
                    0 <= i < 2 * p ==> #[trigger] self.data@[start.len() + i] == encoded_byte(
                        rgba@,
                        i,
                    ),
            decreases n_pixels - p,
        {
            let (hi, lo) = pixel_bytes(rgba[4 * p], rgba[4 * p + 1], rgba[4 * p + 2]);
            self.data.push(hi);
            self.data.push(lo);
            proof {
                let i0 = 2 * p as int;
                assert(i0 / 2 == p && i0 % 2 == 0);
                assert((i0 + 1) / 2 == p && (i0 + 1) % 2 == 1);
            }
            p = p + 1;
        }
        assert forall|i: int| 0 <= i < self.data@.len() implies #[trigger] self.data@[i] == (start
            + encoded_pixels(rgba@))[i] by {
            if i < start.len() {
                assert(self.data@.subrange(0, start.len() as int)[i] == self.data@[i]);
            } else {
                assert(self.data@[start.len() + (i - start.len())] == encoded_byte(
                    rgba@,
                    i - start.len(),
                ));
            }
        }
        assert(self.data@ =~= start + encoded_pixels(rgba@));
        self.size = Some(side);
        if self.delay.is_none() {
            self.delay = Some(delay);
        }
        self.n_frames = self.n_frames + 1;
        Ok(())
    }

    /// The finished container. `frame_rate` overrides the rate derived from
    /// the first frame's delay.
    pub fn finish(&self, frame_rate: Option<u8>) -> (r: Result<Vec<u8>, EncodeError>)
        requires
            encoder_wf(self@),
        ensures
            self@.n_frames == 0 ==> r == Err::<Vec<u8>, EncodeError>(EncodeError::NoFrames),
            self@.n_frames > 0 ==> (r matches Ok(b) && b@ == container_bytes(self@, frame_rate)),
    {
        let (size, delay) = match (self.size, self.delay) {
            (Some(size), Some(delay)) => (size, delay),
            _ => return Err(EncodeError::NoFrames),
        };
        let raw: u8 = match frame_rate {
            Some(rate) => rate,
            None => {
                let d: u16 = if delay < 1 {
                    1
                } else {
                    delay
                };
                (100 / d) as u8
            },
        };
        let mut rate = FrameRate(raw);
        match rate.make_nearest_supported(Size(size)) {
            Ok(()) => {},
            Err(_) => return Err(EncodeError::NoFrames),
        }
        let header = Header {
            magic: MagicBytes::correct(),
            version: Version::zero(),
            encoding: Encoding::rgb565be(),
            size: Size(size),
            frame_rate: rate,
            n_frames: NumFrames::from_u16(self.n_frames),
        };
        let head = header.as_bytes();
        let mut out: Vec<u8> = Vec::new();
        let mut i: usize = 0;
        while i < 8
            invariant
                i <= 8,
                head@.len() == 8,
                out@ == head@.subrange(0, i as int),
            decreases 8 - i,
        {
            out.push(head[i]);
            i = i + 1;
            assert(out@ =~= head@.subrange(0, i as int));
        }
        let mut j: usize = 0;
        while j < self.data.len()
            invariant
                j <= self.data@.len(),
                head@.len() == 8,
                out@ == head@ + self.data@.subrange(0, j as int),
            decreases self.data@.len() - j,
        {
            out.push(self.data[j]);
            j = j + 1;
            assert(out@ =~= head@ + self.data@.subrange(0, j as int));
        }
        proof {
            let n = self.n_frames;
            let b0 = header.n_frames.0[0];
            let b1 = header.n_frames.0[1];
            assert(b0 == n % 256 && b1 == n / 256);
        }
        assert(out@ =~= container_bytes(self@, frame_rate));
        Ok(out)
    }
}

} // verus!
