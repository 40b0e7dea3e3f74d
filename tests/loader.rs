use luluu::framebuffer::{Framebuffer, DISPLAY_SIDE, FULL_FRAMEBUFFER_SIZE};
use luluu::loader::{
    read_120px_frame_into_main_fb, read_240px_frame_into_main_fb, read_60px_frame_into_main_fb,
    read_frame_into_main_fb, LoadError, MainFramebuffer, FILE_BUFFER_SIZE,
};
use luluu::codec::Size;
use luluu::stream::{MemoryFile, ReadFile};

/// A frame whose pixel `i` holds the value `i + salt`, big-endian.
fn unique_frame(size: usize, salt: u16) -> Vec<u8> {
    let mut v = Vec::new();
    for i in 0..size * size {
        let p = (i as u16).wrapping_add(salt);
        v.push((p >> 8) as u8);
        v.push(p as u8);
    }
    v
}

fn check_scaled(fb: &MainFramebuffer, frame: &[u8], size: usize) {
    let scale = DISPLAY_SIDE / size;
    assert_eq!(fb.pixels().len(), FULL_FRAMEBUFFER_SIZE);
    for y in 0..DISPLAY_SIDE {
        for x in 0..DISPLAY_SIDE {
            let j = (y / scale) * size + x / scale;
            assert_eq!(
                fb.pixels()[x + y * DISPLAY_SIDE].to_raw(),
                [frame[2 * j], frame[2 * j + 1]],
                "pixel ({}, {})",
                x,
                y
            );
        }
    }
}

#[test]
fn loads_60px_frame_scaled_by_four() {
    let frame = unique_frame(60, 7);
    let mut file = MemoryFile::new(frame.clone());
    let mut buf = [0u8; FILE_BUFFER_SIZE];
    let mut fb: MainFramebuffer = Framebuffer::new();
    read_60px_frame_into_main_fb(&mut file, &mut buf, &mut fb).unwrap();
    check_scaled(&fb, &frame, 60);
    assert_eq!(file.offset(), 60 * 60 * 2);
}

#[test]
fn loads_120px_frame_scaled_by_two() {
    let frame = unique_frame(120, 11);
    let mut file = MemoryFile::new(frame.clone());
    let mut buf = [0u8; FILE_BUFFER_SIZE];
    let mut fb: MainFramebuffer = Framebuffer::new();
    read_120px_frame_into_main_fb(&mut file, &mut buf, &mut fb).unwrap();
    check_scaled(&fb, &frame, 120);
    assert_eq!(file.offset(), 120 * 120 * 2);
}

#[test]
fn loads_240px_frame_unscaled() {
    let frame = unique_frame(240, 3);
    let mut file = MemoryFile::new(frame.clone());
    let mut buf = [0u8; FILE_BUFFER_SIZE];
    let mut fb: MainFramebuffer = Framebuffer::new();
    read_240px_frame_into_main_fb(&mut file, &mut buf, &mut fb).unwrap();
    check_scaled(&fb, &frame, 240);
    assert_eq!(fb.as_bytes(), frame);
}

#[test]
fn loads_from_the_cursor() {
    let mut data = vec![0xeeu8; 8];
    let first = unique_frame(60, 0);
    let second = unique_frame(60, 1000);
    data.extend_from_slice(&first);
    data.extend_from_slice(&second);
    let mut file = MemoryFile::new(data);
    file.seek_from_start(8).unwrap();
    let mut buf = [0u8; FILE_BUFFER_SIZE];
    let mut fb: MainFramebuffer = Framebuffer::new();
    read_frame_into_main_fb(Size(60), &mut file, &mut buf, &mut fb).unwrap();
    check_scaled(&fb, &first, 60);
    read_frame_into_main_fb(Size(60), &mut file, &mut buf, &mut fb).unwrap();
    check_scaled(&fb, &second, 60);
    assert_eq!(file.offset(), 8 + 2 * 7200);
}

#[test]
fn short_read_is_reported() {
    let mut frame = unique_frame(120, 0);
    frame.truncate(frame.len() - 1);
    let mut file = MemoryFile::new(frame);
    let mut buf = [0u8; FILE_BUFFER_SIZE];
    let mut fb: MainFramebuffer = Framebuffer::new();
    let r = read_120px_frame_into_main_fb(&mut file, &mut buf, &mut fb);
    assert!(matches!(r, Err(LoadError::ShortRead)));
}

#[test]
fn empty_stream_is_a_short_read() {
    let mut file = MemoryFile::new(Vec::new());
    let mut buf = [0u8; FILE_BUFFER_SIZE];
    let mut fb: MainFramebuffer = Framebuffer::new();
    let r = read_240px_frame_into_main_fb(&mut file, &mut buf, &mut fb);
    assert!(matches!(r, Err(LoadError::ShortRead)));
}

#[test]
fn memory_file_reads_and_seeks() {
    let mut file = MemoryFile::new(vec![1, 2, 3, 4, 5]);
    let mut buf = [0u8; 3];
    assert_eq!(file.read(&mut buf), Ok(3));
    assert_eq!(buf, [1, 2, 3]);
    assert_eq!(file.read(&mut buf), Ok(2));
    assert_eq!(&buf[..2], &[4, 5]);
    assert_eq!(file.read(&mut buf), Ok(0));
    assert!(file.seek_from_start(6).is_err());
    file.seek_from_start(1).unwrap();
    file.seek_from_current(2).unwrap();
    assert_eq!(file.offset(), 3);
    file.seek_from_current(-3).unwrap();
    assert_eq!(file.offset(), 0);
    assert!(file.seek_from_current(-1).is_err());
    assert!(file.seek_from_current(6).is_err());
}

#[test]
fn framebuffer_starts_uniform() {
    let fb: Framebuffer<u8, 4> = Framebuffer::const_new(9);
    assert_eq!(fb.pixels(), &[9, 9, 9, 9]);
    let mut fb: Framebuffer<u8, 3> = Framebuffer::const_new(0);
    fb.pixels_mut()[1] = 5;
    assert_eq!(fb.pixels(), &[0, 5, 0]);
    let black: MainFramebuffer = Framebuffer::new();
    assert!(black.as_bytes().iter().all(|&b| b == 0));
}

struct FailingFile;

impl ReadFile for FailingFile {
    type Error = &'static str;

    fn read(&mut self, _buffer: &mut [u8]) -> Result<usize, Self::Error> {
        Err("device gone")
    }

    fn seek_from_start(&mut self, _offset: u32) -> Result<(), Self::Error> {
        Err("device gone")
    }

    fn seek_from_current(&mut self, _offset: i32) -> Result<(), Self::Error> {
        Err("device gone")
    }
}

#[test]
fn stream_errors_are_passed_on() {
    let mut buf = [0u8; FILE_BUFFER_SIZE];
    let mut fb: MainFramebuffer = Framebuffer::new();
    let r = read_60px_frame_into_main_fb(&mut FailingFile, &mut buf, &mut fb);
    assert!(matches!(r, Err(LoadError::Io("device gone"))));
}
