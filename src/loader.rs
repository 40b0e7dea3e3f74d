//! Streaming frame loader: reads one frame through a small scratch buffer,
//! batch by batch, and writes it scaled up into the full-size framebuffer.

use vstd::prelude::*;
use crate::codec::Size;
use crate::framebuffer::{Framebuffer, DISPLAY_SIDE, FULL_FRAMEBUFFER_SIZE};
use crate::pixel::Rgb565BE;
use crate::stream::ReadFile;

verus! {

/// Size of the scratch buffer that each batch is read into.
pub const FILE_BUFFER_SIZE: usize = 4096;

/// The display's framebuffer.
pub type MainFramebuffer = Framebuffer<Rgb565BE, FULL_FRAMEBUFFER_SIZE>;

/// Why a frame could not be loaded.
#[derive(Debug)]
pub enum LoadError<E> {
    /// The stream reported an error.
    Io(E),
    /// The stream ended before the frame did.
    ShortRead,
}

/// Bytes in one frame of side `size`.
pub open spec fn frame_len(size: int) -> int {
    size * size * 2
}

/// Index of the source pixel shown at display position (`x`, `y`) when a
/// frame of side `size` is scaled up to fill the display.
pub open spec fn scaled_index(size: int, x: int, y: int) -> int {
    let scale = DISPLAY_SIDE as int / size;
    (y / scale) * size + x / scale
}

/// Bytes of pixel `j` of a frame of big-endian RGB565 pixels.
pub open spec fn source_pixel(frame: Seq<u8>, j: int) -> Seq<u8> {
    frame.subrange(2 * j, 2 * j + 2)
}

/// `fb` shows `frame`, of side `size`, scaled up by nearest neighbour: the
/// display pixel `k`, at column `k % 240` and row `k / 240`, is the source
/// pixel at column `x / scale` and row `y / scale`.
pub open spec fn shows_frame(fb: Seq<Rgb565BE>, frame: Seq<u8>, size: int) -> bool {
    &&& fb.len() == FULL_FRAMEBUFFER_SIZE
    &&& forall|k: int|
        0 <= k < FULL_FRAMEBUFFER_SIZE ==> (#[trigger] fb[k])@ == source_pixel(
            frame,
            scaled_index(size, k % 240, k / 240),
        )
}

/// What loading one frame of side `size` did, from the file `before` to the
/// file `after`, leaving the pixels `fb` and returning `r`: on success the
/// cursor moved past exactly one frame and `fb` shows that frame; a short read
/// is reported only when the file ends inside the frame.
pub open spec fn frame_loaded<F: ReadFile>(
    before: F,
    after: F,
    fb: Seq<Rgb565BE>,
    size: int,
    r: Result<(), LoadError<F::Error>>,
) -> bool {
    &&& after.content() == before.content()
    &&& fb.len() == FULL_FRAMEBUFFER_SIZE
    &&& r is Ok ==> {
        &&& before.cursor() + frame_len(size) <= before.content().len()
        &&& after.cursor() == before.cursor() + frame_len(size)
        &&& shows_frame(
            fb,
            before.content().subrange(before.cursor() as int, before.cursor() + frame_len(size)),
            size,
        )
    }
    &&& r matches Err(LoadError::ShortRead) ==> before.cursor() + frame_len(size) > before.content().len()
}

/// Index arithmetic of one destination pixel inside a batch.
proof fn lemma_batch_pixel(size: int, scale: int, rpb: int, batch: int, y: int, x: int)
    requires
        size * scale == 240,
        scale >= 1,
        rpb >= 1,
        size >= 1,
        0 <= batch,
        batch * rpb * scale <= y < (batch * rpb + rpb) * scale,
        0 <= x < 240,
    ensures
        batch * rpb <= y / scale < batch * rpb + rpb,
        0 <= x / scale < size,
        ({
            let j = (y / scale - batch * rpb) * size + x / scale;
            &&& 0 <= j < rpb * size
            &&& batch * (rpb * size * 2) + 2 * j == 2 * ((y / scale) * size + x / scale)
        }),
{
    let ys = y / scale;
    let xs = x / scale;
    vstd::arithmetic::div_mod::lemma_fundamental_div_mod(y, scale);
    vstd::arithmetic::div_mod::lemma_fundamental_div_mod(x, scale);
    let ry = y % scale;
    let rx = x % scale;
    assert(batch * rpb <= ys) by (nonlinear_arith)
        requires
            y == scale * ys + ry,
            0 <= ry < scale,
            batch * rpb * scale <= y,
    ;
    assert(ys < batch * rpb + rpb) by (nonlinear_arith)
        requires
            y == scale * ys + ry,
            0 <= ry,
            y < (batch * rpb + rpb) * scale,
            scale >= 1,
    ;
    assert(0 <= xs < size) by (nonlinear_arith)
        requires
            x == scale * xs + rx,
            0 <= rx < scale,
            0 <= x < 240,
            size * scale == 240,
    ;
    let j = (ys - batch * rpb) * size + xs;
    assert(0 <= j < rpb * size) by (nonlinear_arith)
        requires
            j == (ys - batch * rpb) * size + xs,
            0 <= ys - batch * rpb < rpb,
            0 <= xs < size,
    ;
    assert(batch * (rpb * size * 2) + 2 * j == 2 * (ys * size + xs)) by (nonlinear_arith)
        requires
            j == (ys - batch * rpb) * size + xs,
    ;
}

/// Read one frame of side `size` in batches of `rows_per_batch` source rows
/// and write it, scaled up to the display, into `fb`.
fn read_scaled_frame<F: ReadFile>(
    img_file: &mut F,
    file_read_buffer: &mut [u8; FILE_BUFFER_SIZE],
    fb: &mut MainFramebuffer,
    size: usize,
    rows_per_batch: usize,
) -> (r: Result<(), LoadError<F::Error>>)
    requires
        (size == 60 && rows_per_batch == 30) || (size == 120 && rows_per_batch == 15) || (size
            == 240 && rows_per_batch == 8),
        old(fb)@.len() == FULL_FRAMEBUFFER_SIZE,
    ensures
        frame_loaded(*old(img_file), *final(img_file), final(fb)@, size as int, r),
{
    let scale: usize = DISPLAY_SIDE / size;
    let batches: usize = size / rows_per_batch;
    let batch_bytes: usize = rows_per_batch * size * 2;
    let ghost content = img_file.content();
    let ghost c0 = img_file.cursor() as int;
    assert(size * scale == 240 && batches * rows_per_batch == size && batch_bytes <= FILE_BUFFER_SIZE
        && batches * batch_bytes == frame_len(size as int)) by {
        if size == 60 {
            assert(scale == 4 && batches == 2 && batch_bytes == 3600);
            assert(size * scale == 240 && batches * rows_per_batch == size && batches * batch_bytes
                == frame_len(size as int)) by (nonlinear_arith)
                requires
                    size == 60 && rows_per_batch == 30 && scale == 4 && batches == 2 && batch_bytes
                        == 3600,
            ;
        } else if size == 120 {
            assert(scale == 2 && batches == 8 && batch_bytes == 3600);
            assert(size * scale == 240 && batches * rows_per_batch == size && batches * batch_bytes
                == frame_len(size as int)) by (nonlinear_arith)
                requires
                    size == 120 && rows_per_batch == 15 && scale == 2 && batches == 8 && batch_bytes
                        == 3600,
            ;
        } else {
            assert(scale == 1 && batches == 30 && batch_bytes == 3840);
            assert(size * scale == 240 && batches * rows_per_batch == size && batches * batch_bytes
                == frame_len(size as int)) by (nonlinear_arith)
                requires
                    size == 240 && rows_per_batch == 8 && scale == 1 && batches == 30 && batch_bytes
                        == 3840,
            ;
        }
    }
    let mut batch: usize = 0;
    while batch < batches
        invariant
            (size == 60 && rows_per_batch == 30) || (size == 120 && rows_per_batch == 15) || (size
                == 240 && rows_per_batch == 8),
            scale == 240int / size as int,
            size * scale == 240,
            batches * rows_per_batch == size,
            batch_bytes == rows_per_batch * size * 2,
            batches * batch_bytes == frame_len(size as int),
            batch <= batches,
            img_file.content() == content,
            content == old(img_file).content(),
            c0 == old(img_file).cursor(),
            img_file.cursor() == c0 + batch * batch_bytes,
            0 <= c0,
            batch > 0 ==> c0 + batch * batch_bytes <= content.len(),
            fb@.len() == FULL_FRAMEBUFFER_SIZE,
            forall|k: int|
                0 <= k < batch * rows_per_batch * scale * 240 ==> (#[trigger] fb@[k])@
                    == content.subrange(
                    c0 + 2 * scaled_index(size as int, k % 240, k / 240),
                    c0 + 2 * scaled_index(size as int, k % 240, k / 240) + 2,
                ),
        decreases batches - batch,
    {
        let ghost cur = img_file.cursor() as int;
        assert(cur + batch_bytes <= c0 + frame_len(size as int)) by (nonlinear_arith)
            requires
                cur == c0 + batch * batch_bytes,
                batch < batches,
                batches * batch_bytes == frame_len(size as int),
        ;
        let buf: &mut [u8] = file_read_buffer;
        let (head, _tail) = buf.split_at_mut(batch_bytes);
        let n = match img_file.read(head) {
            Ok(n) => n,
            Err(e) => return Err(LoadError::Io(e)),
        };
        if n != batch_bytes {
            return Err(LoadError::ShortRead);
        }
        assert(file_read_buffer@.subrange(0, batch_bytes as int) == content.subrange(
            cur,
            cur + batch_bytes,
        ));
        let pixels = fb.pixels_mut();
        assert(batch * rows_per_batch * scale + rows_per_batch * scale <= 240) by (nonlinear_arith)
            requires
                batch < batches,
                batches * rows_per_batch == size,
                size * scale == 240,
        ;
        let y0: usize = batch * rows_per_batch * scale;
        let y1: usize = y0 + rows_per_batch * scale;
        assert(y1 <= 240) by (nonlinear_arith)
            requires
                y1 == batch * rows_per_batch * scale + rows_per_batch * scale,
                batch < batches,
                batches * rows_per_batch == size,
                size * scale == 240,
        ;
        let mut y: usize = y0;
        while y < y1
            invariant
                (size == 60 && rows_per_batch == 30) || (size == 120 && rows_per_batch == 15) || (
                size == 240 && rows_per_batch == 8),
                scale == 240int / size as int,
                size * scale == 240,
                batch_bytes == rows_per_batch * size * 2,
                y0 == batch * rows_per_batch * scale,
                y1 == y0 + rows_per_batch * scale,
                y1 <= 240,
                y0 <= y <= y1,
                cur == c0 + batch * batch_bytes,
                0 <= c0,
                cur + batch_bytes <= content.len(),
                file_read_buffer@.len() == FILE_BUFFER_SIZE,
                file_read_buffer@.subrange(0, batch_bytes as int) == content.subrange(
                    cur,
                    cur + batch_bytes,
                ),
                pixels@.len() == FULL_FRAMEBUFFER_SIZE,
                forall|k: int|
                    0 <= k < y * 240 ==> (#[trigger] pixels@[k])@ == content.subrange(
                        c0 + 2 * scaled_index(size as int, k % 240, k / 240),
                        c0 + 2 * scaled_index(size as int, k % 240, k / 240) + 2,
                    ),
            decreases y1 - y,
        {
            assert(y < (batch * rows_per_batch + rows_per_batch) * scale) by (nonlinear_arith)
                requires
                    y < y1,
                    y1 == y0 + rows_per_batch * scale,
                    y0 == batch * rows_per_batch * scale,
            ;
            proof {
                lemma_batch_pixel(
                    size as int,
                    scale as int,
                    rows_per_batch as int,
                    batch as int,
                    y as int,
                    0,
                );
            }
            let src_row: usize = y / scale - batch * rows_per_batch;
            let mut x: usize = 0;
            while x < DISPLAY_SIDE
                invariant
                    (size == 60 && rows_per_batch == 30) || (size == 120 && rows_per_batch == 15)
                        || (size == 240 && rows_per_batch == 8),
                    scale == 240int / size as int,
                    size * scale == 240,
                    batch_bytes == rows_per_batch * size * 2,
                    y0 == batch * rows_per_batch * scale,
                    y1 == y0 + rows_per_batch * scale,
                    y1 <= 240,
                    y0 <= y < y1,
                    src_row == y / scale - batch * rows_per_batch,
                    y < (batch * rows_per_batch + rows_per_batch) * scale,
                    x <= 240,
                    cur == c0 + batch * batch_bytes,
                    0 <= c0,
                    cur + batch_bytes <= content.len(),
                    file_read_buffer@.len() == FILE_BUFFER_SIZE,
                    file_read_buffer@.subrange(0, batch_bytes as int) == content.subrange(
                        cur,
                        cur + batch_bytes,
                    ),
                    pixels@.len() == FULL_FRAMEBUFFER_SIZE,
                    forall|k: int|
                        0 <= k < y * 240 + x ==> (#[trigger] pixels@[k])@ == content.subrange(
                            c0 + 2 * scaled_index(size as int, k % 240, k / 240),
                            c0 + 2 * scaled_index(size as int, k % 240, k / 240) + 2,
                        ),
                decreases 240 - x,
            {
                proof {
                    lemma_batch_pixel(
                        size as int,
                        scale as int,
                        rows_per_batch as int,
                        batch as int,
                        y as int,
                        x as int,
                    );
                }
                let j: usize = src_row * size + x / scale;
                let px = Rgb565BE::from_raw([file_read_buffer[2 * j], file_read_buffer[2 * j + 1]]);
                let k: usize = y * DISPLAY_SIDE + x;
                proof {
                    vstd::arithmetic::div_mod::lemma_fundamental_div_mod_converse(
                        k as int,
                        240,
                        y as int,
                        x as int,
                    );
                    let jj = scaled_index(size as int, x as int, y as int);
                    assert(cur + 2 * j == c0 + 2 * jj);
                    assert(file_read_buffer@[2 * j as int] == file_read_buffer@.subrange(
                        0,
                        batch_bytes as int,
                    )[2 * j as int]);
                    assert(file_read_buffer@[2 * j + 1] == file_read_buffer@.subrange(
                        0,
                        batch_bytes as int,
                    )[2 * j + 1]);
                    assert(2 * j + 1 < batch_bytes) by (nonlinear_arith)
                        requires
                            j < rows_per_batch * size,
                            batch_bytes == rows_per_batch * size * 2,
                    ;
                    let sub = content.subrange(cur, cur + batch_bytes);
                    assert(sub[2 * j as int] == content[cur + 2 * j]);
                    assert(sub[2 * j + 1] == content[cur + 2 * j + 1]);
                    assert(px@ =~= content.subrange(c0 + 2 * jj, c0 + 2 * jj + 2));
                }
                pixels[k] = px;
                x = x + 1;
            }
            y = y + 1;
        }
        batch = batch + 1;
        assert(y1 == batch * rows_per_batch * scale) by (nonlinear_arith)
            requires
                y1 == (batch - 1) * rows_per_batch * scale + rows_per_batch * scale,
        ;
        assert(img_file.cursor() == c0 + batch * batch_bytes) by (nonlinear_arith)
            requires
                img_file.cursor() == cur + batch_bytes,
                cur == c0 + (batch - 1) * batch_bytes,
        ;
    }
    assert(batches * rows_per_batch * scale * 240 == FULL_FRAMEBUFFER_SIZE) by (nonlinear_arith)
        requires
            batches * rows_per_batch == size,
            size * scale == 240,
    ;
    let ghost frame = content.subrange(c0, c0 + frame_len(size as int));
    assert forall|k: int| 0 <= k < FULL_FRAMEBUFFER_SIZE implies (#[trigger] fb@[k])@
        == source_pixel(frame, scaled_index(size as int, k % 240, k / 240)) by {
        let jj = scaled_index(size as int, k % 240, k / 240);
        assert(0 <= jj < size * size) by {
            lemma_batch_pixel(size as int, scale as int, size as int, 0, k / 240, k % 240);
        }
        assert(frame.subrange(2 * jj, 2 * jj + 2) =~= content.subrange(c0 + 2 * jj, c0 + 2 * jj + 2));
    }
    Ok(())
}


/// Read a 60×60 frame, two batches of 30 rows, each source pixel filling a
/// 4×4 block of the display.
pub fn read_60px_frame_into_main_fb<F: ReadFile>(
    img_file: &mut F,
    file_read_buffer: &mut [u8; FILE_BUFFER_SIZE],
    fb: &mut MainFramebuffer,
) -> (r: Result<(), LoadError<F::Error>>)
    requires
        old(fb)@.len() == FULL_FRAMEBUFFER_SIZE,
    ensures
        frame_loaded(*old(img_file), *final(img_file), final(fb)@, 60, r),
{
    read_scaled_frame(img_file, file_read_buffer, fb, 60, 30)
}

/// Read a 120×120 frame, eight batches of 15 rows, each source pixel filling
/// a 2×2 block of the display.
pub fn read_120px_frame_into_main_fb<F: ReadFile>(
    img_file: &mut F,
    file_read_buffer: &mut [u8; FILE_BUFFER_SIZE],
    fb: &mut MainFramebuffer,
) -> (r: Result<(), LoadError<F::Error>>)
    requires
        old(fb)@.len() == FULL_FRAMEBUFFER_SIZE,
    ensures
        frame_loaded(*old(img_file), *final(img_file), final(fb)@, 120, r),
{
    read_scaled_frame(img_file, file_read_buffer, fb, 120, 15)
}

/// Read a 240×240 frame, thirty batches of 8 rows, copied row for row.
pub fn read_240px_frame_into_main_fb<F: ReadFile>(
    img_file: &mut F,
    file_read_buffer: &mut [u8; FILE_BUFFER_SIZE],
    fb: &mut MainFramebuffer,
) -> (r: Result<(), LoadError<F::Error>>)
    requires
        old(fb)@.len() == FULL_FRAMEBUFFER_SIZE,
    ensures
        frame_loaded(*old(img_file), *final(img_file), final(fb)@, 240, r),
{
    read_scaled_frame(img_file, file_read_buffer, fb, 240, 8)
}

/// Read the next frame with the loader for the frame side `size`.
pub fn read_frame_into_main_fb<F: ReadFile>(
    size: Size,
    img_file: &mut F,
    file_read_buffer: &mut [u8; FILE_BUFFER_SIZE],
    fb: &mut MainFramebuffer,
) -> (r: Result<(), LoadError<F::Error>>)
    requires
        crate::codec::size_supported(size.0),
        old(fb)@.len() == FULL_FRAMEBUFFER_SIZE,
    ensures
        frame_loaded(*old(img_file), *final(img_file), final(fb)@, size.0 as int, r),
{
    if size.0 == 60 {
        read_60px_frame_into_main_fb(img_file, file_read_buffer, fb)
    } else if size.0 == 120 {
        read_120px_frame_into_main_fb(img_file, file_read_buffer, fb)
    } else {
        read_240px_frame_into_main_fb(img_file, file_read_buffer, fb)
    }
}

} // verus!
