//! A fixed-size grid of pixels, allocated once and then only overwritten.

use vstd::prelude::*;
use crate::pixel::Rgb565BE;

verus! {

/// Side length of the display, in pixels.
pub const DISPLAY_SIDE: usize = 240;

/// The number of pixels in a full-size framebuffer.
pub const FULL_FRAMEBUFFER_SIZE: usize = 57600;

/// The number of pixels in a half-size framebuffer.
pub const HALF_FRAMEBUFFER_SIZE: usize = 14400;

/// `N` pixels, row-major. The length never changes.
pub struct Framebuffer<P, const N: usize> {
    data: Vec<P>,
}

impl<P, const N: usize> View for Framebuffer<P, N> {
    type V = Seq<P>;

    closed spec fn view(&self) -> Seq<P> {
        self.data@
    }
}

impl<P: Copy, const N: usize> Framebuffer<P, N> {
    /// A framebuffer with every pixel set to `initial`.
    pub fn const_new(initial: P) -> (r: Self)
        ensures
            r@ == Seq::new(N as nat, |_i: int| initial),
    {
        let mut data: Vec<P> = Vec::new();
        let mut i: usize = 0;
        while i < N
            invariant
                i <= N,
                data@ == Seq::new(i as nat, |_i: int| initial),
            decreases N - i,
        {
            data.push(initial);
            i = i + 1;
            assert(data@ =~= Seq::new(i as nat, |_i: int| initial));
        }
        Framebuffer { data }
    }
}

impl<const N: usize> Framebuffer<Rgb565BE, N> {
    /// A black framebuffer.
    pub fn new() -> (r: Self)
        ensures
            r@.len() == N,
            forall|i: int| 0 <= i < N ==> (#[trigger] r@[i])@ == seq![0u8, 0u8],
    {
        Self::const_new(Rgb565BE::zero())
    }

    /// The pixel bytes in order, two per pixel, as sent to the display.
    pub fn as_bytes(&self) -> (r: Vec<u8>)
        requires
            self@.len() * 2 <= usize::MAX,
        ensures
            r@.len() == 2 * self@.len(),
            forall|i: int| 0 <= i < self@.len() ==> r@.subrange(2 * i, 2 * i + 2) == (#[trigger] self@[i])@,
    {
        Rgb565BE::slice_as_bytes(self.data.as_slice())
    }
}

impl<P, const N: usize> Framebuffer<P, N> {
    pub fn pixels(&self) -> (r: &[P])
        ensures
            r@ == self@,
    {
        self.data.as_slice()
    }

    /// Mutable access to the pixels; the length cannot change through it.
    pub fn pixels_mut(&mut self) -> (r: &mut [P])
        ensures
            r@ == old(self)@,
            final(self)@ == final(r)@,
    {
        self.data.as_mut_slice()
    }
}

} // verus!
