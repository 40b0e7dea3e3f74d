//! Playback scheduler: the decisions of the endless play loop. The loop
//! itself (waiting on the tearing-effect pin, switching the bus, sending
//! pixels, sleeping) runs outside; it asks this module what to do next.

use vstd::prelude::*;
use crate::codec::{
    Encoding, Error, FrameRate, Header, Size, ENCODING_RGB565BE, HEADER_SIZE, quantized_rate,
    size_supported, le_u16,
};
use crate::framebuffer::FULL_FRAMEBUFFER_SIZE;
use crate::loader::{
    frame_len, read_frame_into_main_fb, shows_frame, LoadError, MainFramebuffer,
    FILE_BUFFER_SIZE,
};
use crate::stream::ReadFile;

verus! {

/// Bus clock while talking to the storage card, in Hz.
pub const STORAGE_BUS_HZ: u32 = 31_250_000;

/// Bus clock while talking to the display, in Hz.
pub const DISPLAY_BUS_HZ: u32 = 62_500_000;

/// Wait after the tearing-effect signal falls, in microseconds.
pub const SETTLE_MICROS: u32 = 300;

/// Fixed per-iteration time spent outside the measured span, in microseconds.
pub const LOOP_OVERHEAD_MICROS: u32 = 200;

/// Most candidate files collected from the directory.
pub const MAX_CANDIDATES: usize = 16;

/// Time budget of one frame at `rate` frames per second, in microseconds.
pub open spec fn budget_of(rate: u8) -> int {
    1_000_000int / rate as int - LOOP_OVERHEAD_MICROS as int
}

/// The time budget of one frame, in microseconds.
pub fn frame_budget_micros(frame_rate: u8) -> (r: u32)
    requires
        frame_rate >= 1,
    ensures
        r == budget_of(frame_rate),
{
    assert(1_000_000int / frame_rate as int >= 1_000_000int / 255) by (nonlinear_arith)
        requires
            1 <= frame_rate <= 255,
    ;
    1_000_000 / frame_rate as u32 - LOOP_OVERHEAD_MICROS
}

/// How long to sleep after an iteration that took `elapsed` microseconds: the
/// rest of the budget, or nothing when the budget is used up. A late frame is
/// never skipped.
pub fn pacing_sleep_micros(budget: u32, elapsed: u32) -> (r: u32)
    ensures
        elapsed <= budget ==> r == budget - elapsed,
        elapsed > budget ==> r == 0,
{
    match budget.checked_sub(elapsed) {
        Some(left) => left,
        None => 0,
    }
}

/// The index of the file to play among `count` candidates, from the random
/// number `random`; none when there is no candidate.
pub fn choose_file_index(random: u32, count: usize) -> (r: Option<usize>)
    ensures
        count == 0 ==> r is None,
        count > 0 ==> r == Some((random as int % count as int) as usize),
{
    if count == 0 {
        None
    } else if count > u32::MAX as usize {
        proof {
            vstd::arithmetic::div_mod::lemma_small_mod(random as nat, count as nat);
        }
        Some(random as usize)
    } else {
        Some((random % count as u32) as usize)
    }
}

/// Whether a directory entry is a candidate animation: visible, not a system
/// entry, with the extension `LU`.
pub open spec fn is_candidate(hidden: bool, system: bool, extension: Seq<u8>) -> bool {
    !hidden && !system && extension == seq![crate::codec::MAGIC_0, crate::codec::MAGIC_1]
}

/// Whether to collect a directory entry, given that `collected` candidates
/// were collected already.
pub fn accept_entry(collected: usize, hidden: bool, system: bool, extension: &[u8]) -> (r: bool)
    ensures
        r == (collected < MAX_CANDIDATES && is_candidate(hidden, system, extension@)),
{
    if collected >= MAX_CANDIDATES || hidden || system || extension.len() != 2 {
        return false;
    }
    let r = extension[0] == crate::codec::MAGIC_0 && extension[1] == crate::codec::MAGIC_1;
    assert(r ==> extension@ =~= seq![crate::codec::MAGIC_0, crate::codec::MAGIC_1]);
    r
}

/// Refresh rates the display controller can be set to.
#[derive(Debug, Clone, Copy, PartialEq, Eq, Structural)]
pub enum RefreshRate {
    Hz40,
    Hz42,
    Hz60,
    Hz72,
    Hz90,
    Hz99,
}

/// The display refresh rate that suits playing `rate` frames per second at side
/// length `size`.
pub open spec fn refresh_for(size: u8, rate: u8) -> Option<RefreshRate> {
    if size == 60 || size == 120 {
        match rate {
            1 | 2 | 4 | 5 => Some(RefreshRate::Hz40),
            3 => Some(RefreshRate::Hz42),
            6 => Some(RefreshRate::Hz60),
            8 | 12 | 24 => Some(RefreshRate::Hz72),
            10 | 15 => Some(RefreshRate::Hz90),
            20 => Some(RefreshRate::Hz99),
            _ => None,
        }
    } else if size == 240 {
        match rate {
            1 | 2 => Some(RefreshRate::Hz40),
            3 => Some(RefreshRate::Hz60),
            4 => Some(RefreshRate::Hz90),
            _ => None,
        }
    } else {
        None
    }
}

/// A refresh-rate hint for the display; none for a combination that playback
/// never produces.
pub fn display_refresh_rate(size: u8, frame_rate: u8) -> (r: Option<RefreshRate>)
    ensures
        r == refresh_for(size, frame_rate),
{
    if size == 60 || size == 120 {
        match frame_rate {
            1 | 2 | 4 | 5 => Some(RefreshRate::Hz40),
            3 => Some(RefreshRate::Hz42),
            6 => Some(RefreshRate::Hz60),
            8 | 12 | 24 => Some(RefreshRate::Hz72),
            10 | 15 => Some(RefreshRate::Hz90),
            20 => Some(RefreshRate::Hz99),
            _ => None,
        }
    } else if size == 240 {
        match frame_rate {
            1 | 2 => Some(RefreshRate::Hz40),
            3 => Some(RefreshRate::Hz60),
            4 => Some(RefreshRate::Hz90),
            _ => None,
        }
    } else {
        None
    }
}


/// Every rate that quantization produces at a supported side length has a
/// refresh-rate hint.
pub proof fn lemma_refresh_hint_exists(size: u8, rate: u8)
    requires
        size_supported(size),
    ensures
        refresh_for(size, quantized_rate(rate, size)) is Some,
{
}

/// The two clock rates of the shared bus.
#[derive(Debug, Clone, Copy, PartialEq, Eq, Structural)]
pub enum BusSpeed {
    Storage,
    Display,
}

/// One step of a play-loop iteration, carried out by the caller.
#[derive(Debug, Clone, Copy, PartialEq, Eq, Structural)]
pub enum Step {
    /// Busy-wait until the tearing-effect signal is high.
    AwaitTearingHigh,
    /// Busy-wait until the tearing-effect signal is low again.
    AwaitTearingLow,
    /// Wait `SETTLE_MICROS`.
    Settle,
    /// Set the bus clock.
    SetBus(BusSpeed),
    /// Send the whole framebuffer to the display.
    Present,
    /// Switch the backlight on.
    BacklightOn,
    /// `Player::load_next_frame`.
    LoadNextFrame,
    /// Sleep for what `Player::sleep_micros` says.
    Pace,
}

/// Abstract state of a player.
pub ghost struct PlayerView {
    pub size: u8,
    pub frame_rate: u8,
    pub n_frames: nat,
    pub budget_micros: nat,
    /// Frames loaded so far, the first one included.
    pub loads: nat,
}

/// Why playback cannot start from a header.
#[derive(Debug, Clone, Copy, PartialEq, Eq)]
pub enum StartError {
    /// The header itself is unusable.
    Header(Error),
    /// The frames are not big-endian RGB565.
    UnsupportedEncoding(Encoding),
    /// The animation has no frame.
    NoFrames,
}

/// Playback state of one animation.
pub struct Player {
    size: Size,
    frame_rate: FrameRate,
    n_frames: u16,
    budget_micros: u32,
    /// Frames loaded since the stream was last rewound.
    frames_in_pass: u16,
    /// Frames loaded so far, stopping at `u32::MAX`.
    frame: u32,
    loads: Ghost<nat>,
}

impl View for Player {
    type V = PlayerView;

    closed spec fn view(&self) -> PlayerView {
        PlayerView {
            size: self.size.0,
            frame_rate: self.frame_rate.0,
            n_frames: self.n_frames as nat,
            budget_micros: self.budget_micros as nat,
            loads: self.loads@,
        }
    }
}

/// Whether the stream is rewound before the next frame is loaded: the frames
/// loaded so far make a whole number of passes through the animation.
pub open spec fn rewinds(v: PlayerView) -> bool {
    v.loads % v.n_frames == 0
}

/// The steps of one iteration of the play loop, in order.
pub open spec fn planned_steps(v: PlayerView) -> Seq<Step> {
    seq![
        Step::AwaitTearingHigh,
        Step::AwaitTearingLow,
        Step::Settle,
        Step::SetBus(BusSpeed::Display),
        Step::Present,
    ] + (if v.loads == 2 {
        seq![Step::BacklightOn]
    } else {
        seq![]
    }) + seq![
        Step::SetBus(BusSpeed::Storage),
        Step::LoadNextFrame,
        Step::SetBus(BusSpeed::Display),
        Step::Pace,
    ]
}

/// Offset from which the next frame is read, for a stream whose cursor is at
/// `cursor`.
pub open spec fn next_read_start(v: PlayerView, cursor: nat) -> int {
    if rewinds(v) {
        HEADER_SIZE as int
    } else {
        cursor as int
    }
}

/// Position within a pass of `n` frames after `l` loads.
proof fn lemma_pass_position(l: int, n: int)
    requires
        l >= 1,
        n >= 1,
    ensures
        ((l - 1) % n + 1 == n) <==> (l % n == 0),
        l % n != 0 ==> (l - 1) % n + 1 == l % n,
        l % n < n,
{
    let q = (l - 1) / n;
    let r = (l - 1) % n;
    vstd::arithmetic::div_mod::lemma_fundamental_div_mod(l - 1, n);
    vstd::arithmetic::div_mod::lemma_mod_bound(l - 1, n);
    vstd::arithmetic::div_mod::lemma_mod_bound(l, n);
    if r + 1 < n {
        vstd::arithmetic::div_mod::lemma_fundamental_div_mod_converse(l, n, q, r + 1);
    } else {
        assert(l == (q + 1) * n) by (nonlinear_arith)
            requires
                l - 1 == n * q + r,
                r + 1 == n,
        ;
        vstd::arithmetic::div_mod::lemma_fundamental_div_mod_converse(l, n, q + 1, 0);
    }
}

/// The abstract state after one more frame was loaded.
pub open spec fn advanced(v: PlayerView) -> PlayerView {
    PlayerView { loads: v.loads + 1, ..v }
}

/// What loading the next frame did, from the file `before` to the file
/// `after`, leaving the pixels `fb` and returning `r`: on success the frame
/// that starts at `next_read_start` was read whole and is shown; a short read
/// is reported only when the file ends inside that frame.
pub open spec fn next_frame_loaded<F: ReadFile>(
    v: PlayerView,
    before: F,
    after: F,
    fb: Seq<crate::pixel::Rgb565BE>,
    r: Result<(), LoadError<F::Error>>,
) -> bool {
    let start = next_read_start(v, before.cursor());
    let len = frame_len(v.size as int);
    &&& r is Ok ==> {
        &&& start + len <= before.content().len()
        &&& after.cursor() == start + len
        &&& shows_frame(fb, before.content().subrange(start, start + len), v.size as int)
    }
    &&& r matches Err(LoadError::ShortRead) ==> start + len > before.content().len()
}

impl Player {
    /// Well formed: the counters agree and the animation can be played.
    pub closed spec fn wf(&self) -> bool {
        &&& self.n_frames >= 1
        &&& size_supported(self.size.0)
        &&& self.frame_rate.0 >= 1
        &&& self.budget_micros == budget_of(self.frame_rate.0)
        &&& self.frames_in_pass <= self.n_frames
        &&& self.loads@ == 0 ==> self.frames_in_pass == 0
        &&& self.loads@ > 0 ==> self.frames_in_pass == (self.loads@ - 1) % (self.n_frames as int) + 1
        &&& self.frame as int == if self.loads@ < u32::MAX {
            self.loads@ as int
        } else {
            u32::MAX as int
        }
    }

    /// Prepare playback of the animation that `header` describes, before any
    /// frame is loaded. The frame rate is quantized to one that the frame size
    /// allows.
    pub fn new(header: &Header) -> (r: Result<Player, StartError>)
        ensures
            header.encoding.0 != ENCODING_RGB565BE ==> r == Err::<Player, StartError>(
                StartError::UnsupportedEncoding(header.encoding),
            ),
            header.encoding.0 == ENCODING_RGB565BE && !size_supported(header.size.0) ==> r == Err::<
                Player,
                StartError,
            >(StartError::Header(Error::UnsupportedSize(header.size))),
            header.encoding.0 == ENCODING_RGB565BE && size_supported(header.size.0) && le_u16(
                header.n_frames.0[0],
                header.n_frames.0[1],
            ) == 0 ==> r == Err::<Player, StartError>(StartError::NoFrames),
            r matches Ok(p) ==> {
                &&& p.wf()
                &&& p@ == PlayerView {
                    size: header.size.0,
                    frame_rate: quantized_rate(header.frame_rate.0, header.size.0),
                    n_frames: le_u16(header.n_frames.0[0], header.n_frames.0[1]) as nat,
                    budget_micros: budget_of(
                        quantized_rate(header.frame_rate.0, header.size.0),
                    ) as nat,
                    loads: 0,
                }
            },
            header.encoding.0 == ENCODING_RGB565BE && size_supported(header.size.0) && le_u16(
                header.n_frames.0[0],
                header.n_frames.0[1],
            ) != 0 ==> r is Ok,
    {
        if header.encoding.0 != ENCODING_RGB565BE {
            return Err(StartError::UnsupportedEncoding(header.encoding));
        }
        let mut frame_rate = header.frame_rate;
        match frame_rate.make_nearest_supported(header.size) {
            Ok(()) => {},
            Err(e) => return Err(StartError::Header(e)),
        }
        let n_frames = header.n_frames.as_u16();
        if n_frames == 0 {
            return Err(StartError::NoFrames);
        }
        let budget_micros = frame_budget_micros(frame_rate.0);
        Ok(Player {
            size: header.size,
            frame_rate,
            n_frames,
            budget_micros,
            frames_in_pass: 0,
            frame: 0,
            loads: Ghost(0),
        })
    }

    pub fn size(&self) -> (r: Size)
        ensures
            r.0 == self@.size,
    {
        self.size
    }

    pub fn frame_rate(&self) -> (r: FrameRate)
        ensures
            r.0 == self@.frame_rate,
    {
        self.frame_rate
    }

    /// The time budget of one frame, in microseconds.
    pub fn budget_micros(&self) -> (r: u32)
        ensures
            r == self@.budget_micros,
    {
        self.budget_micros
    }

    /// The steps of the next iteration of the play loop.
    pub fn iteration_steps(&self) -> (r: Vec<Step>)
        requires
            self.wf(),
        ensures
            r@ == planned_steps(self@),
    {
        let mut r: Vec<Step> = Vec::new();
        r.push(Step::AwaitTearingHigh);
        r.push(Step::AwaitTearingLow);
        r.push(Step::Settle);
        r.push(Step::SetBus(BusSpeed::Display));
        r.push(Step::Present);
        if self.frame == 2 {
            r.push(Step::BacklightOn);
        }
        r.push(Step::SetBus(BusSpeed::Storage));
        r.push(Step::LoadNextFrame);
        r.push(Step::SetBus(BusSpeed::Display));
        r.push(Step::Pace);
        assert(r@ =~= planned_steps(self@));
        r
    }

    /// How long to sleep after an iteration that took `elapsed` microseconds.
    pub fn sleep_micros(&self, elapsed: u32) -> (r: u32)
        ensures
            elapsed <= self@.budget_micros ==> r == self@.budget_micros - elapsed,
            elapsed > self@.budget_micros ==> r == 0,
    {
        pacing_sleep_micros(self.budget_micros, elapsed)
    }

    /// Load the next frame into `fb`: when the frames loaded so far make a
    /// whole number of passes, the stream is first sought back to the first
    /// frame, just after the header. On failure the player is unchanged.
    pub fn load_next_frame<F: ReadFile>(
        &mut self,
        img_file: &mut F,
        file_read_buffer: &mut [u8; FILE_BUFFER_SIZE],
        fb: &mut MainFramebuffer,
    ) -> (r: Result<(), LoadError<F::Error>>)
        requires
            old(self).wf(),
            old(fb)@.len() == FULL_FRAMEBUFFER_SIZE,
        ensures
            final(self).wf(),
            final(img_file).content() == old(img_file).content(),
            final(fb)@.len() == FULL_FRAMEBUFFER_SIZE,
            r is Err ==> *final(self) == *old(self),
            r is Ok ==> final(self)@ == advanced(old(self)@),
            next_frame_loaded(old(self)@, *old(img_file), *final(img_file), final(fb)@, r),
    {
        let rewind = self.frames_in_pass == 0 || self.frames_in_pass == self.n_frames;
        proof {
            if self.loads@ > 0 {
                lemma_pass_position(self.loads@ as int, self.n_frames as int);
            } else {
                vstd::arithmetic::div_mod::lemma_small_mod(0, self.n_frames as nat);
            }
        }
        if rewind {
            match img_file.seek_from_start(HEADER_SIZE as u32) {
                Ok(()) => {},
                Err(e) => return Err(LoadError::Io(e)),
            }
        }
        match read_frame_into_main_fb(self.size, img_file, file_read_buffer, fb) {
            Ok(()) => {},
            Err(e) => return Err(e),
        }
        self.frames_in_pass = if rewind {
            1
        } else {
            self.frames_in_pass + 1
        };
        if self.frame < u32::MAX {
            self.frame = self.frame + 1;
        }
        self.loads = Ghost(self.loads@ + 1);
        Ok(())
    }
}


/// The bus speed that the last `SetBus` before position `i` of `steps` set.
pub open spec fn bus_before(steps: Seq<Step>, i: int) -> Option<BusSpeed>
    decreases i,
{
    if i <= 0 {
        None
    } else if let Step::SetBus(speed) = steps[i - 1] {
        Some(speed)
    } else {
        bus_before(steps, i - 1)
    }
}

/// Bus discipline: within an iteration the display is sent pixels only while
/// the bus runs at display speed, the storage card is read only while it runs
/// at storage speed, and the iteration leaves the bus at display speed for the
/// next presentation.
pub proof fn lemma_bus_discipline(v: PlayerView, i: int)
    requires
        0 <= i < planned_steps(v).len(),
    ensures
        planned_steps(v)[i] == Step::Present ==> bus_before(planned_steps(v), i) == Some(
            BusSpeed::Display,
        ),
        planned_steps(v)[i] == Step::LoadNextFrame ==> bus_before(planned_steps(v), i) == Some(
            BusSpeed::Storage,
        ),
        bus_before(planned_steps(v), planned_steps(v).len() as int) == Some(BusSpeed::Display),
{
    let steps = planned_steps(v);
    reveal_with_fuel(bus_before, 11);
    if v.loads == 2 {
        assert(steps =~= seq![
            Step::AwaitTearingHigh,
            Step::AwaitTearingLow,
            Step::Settle,
            Step::SetBus(BusSpeed::Display),
            Step::Present,
            Step::BacklightOn,
            Step::SetBus(BusSpeed::Storage),
            Step::LoadNextFrame,
            Step::SetBus(BusSpeed::Display),
            Step::Pace,
        ]);
    } else {
        assert(steps =~= seq![
            Step::AwaitTearingHigh,
            Step::AwaitTearingLow,
            Step::Settle,
            Step::SetBus(BusSpeed::Display),
            Step::Present,
            Step::SetBus(BusSpeed::Storage),
            Step::LoadNextFrame,
            Step::SetBus(BusSpeed::Display),
            Step::Pace,
        ]);
    }
}

/// The stream of a player that has made `v.loads` loads from the offset just
/// after the header sits after the last frame it loaded.
pub open spec fn positioned(v: PlayerView, cursor: nat) -> bool {
    v.loads > 0 ==> cursor == HEADER_SIZE as int + ((v.loads - 1) % (v.n_frames as int) + 1)
        * frame_len(v.size as int)
}

/// Loop point: load number `k`, counted from zero, reads frame `k % n_frames`.
/// After exactly `n_frames` loads the stream goes back to the offset just
/// after the header before the next read; and the stream stays positioned
/// after each load.
pub proof fn lemma_loop_point(v: PlayerView, cursor: nat)
    requires
        v.n_frames >= 1,
        positioned(v, cursor),
    ensures
        next_read_start(v, cursor) == HEADER_SIZE as int + (v.loads as int % v.n_frames as int)
            * frame_len(v.size as int),
        v.loads as int % v.n_frames as int == 0 ==> next_read_start(v, cursor) == HEADER_SIZE,
        positioned(
            advanced(v),
            (next_read_start(v, cursor) + frame_len(v.size as int)) as nat,
        ),
{
    let n = v.n_frames as int;
    let len = frame_len(v.size as int);
    if v.loads > 0 {
        lemma_pass_position(v.loads as int, n);
    }
    let m = v.loads as int % n;
    assert(HEADER_SIZE as int + m * len + len == HEADER_SIZE as int + (m + 1) * len) by (
    nonlinear_arith);
    if v.loads == 0 {
        vstd::arithmetic::div_mod::lemma_small_mod(0, n as nat);
    }
    assert(rewinds(v) == (m == 0));
    if m == 0 {
        assert(m * len == 0) by (nonlinear_arith)
            requires
                m == 0,
        ;
    } else {
        assert(cursor == HEADER_SIZE as int + m * len);
    }
    let w = advanced(v);
    assert((w.loads - 1) % (w.n_frames as int) == m);
}

} // verus!
