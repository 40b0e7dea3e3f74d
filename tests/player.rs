use luluu::codec::{Encoding, Error, FrameRate, Header, MagicBytes, NumFrames, Size, Version};
use luluu::framebuffer::Framebuffer;
use luluu::loader::{LoadError, MainFramebuffer, FILE_BUFFER_SIZE};
use luluu::player::{
    accept_entry, choose_file_index, display_refresh_rate, frame_budget_micros,
    pacing_sleep_micros, BusSpeed, Player, RefreshRate, StartError, Step,
};
use luluu::stream::{MemoryFile, ReadFile};

fn header(size: u8, rate: u8, n: u16) -> Header {
    Header {
        magic: MagicBytes::correct(),
        version: Version::zero(),
        encoding: Encoding::rgb565be(),
        size: Size(size),
        frame_rate: FrameRate(rate),
        n_frames: NumFrames::from_u16(n),
    }
}

/// A container of `n` frames of side 60; every pixel of frame `f` is `f + 1`.
fn container(n: u16) -> Vec<u8> {
    let mut v = header(60, 8, n).as_bytes().to_vec();
    for f in 0..n {
        for _ in 0..60 * 60 {
            v.push(0);
            v.push(f as u8 + 1);
        }
    }
    v
}

fn shown_frame(fb: &MainFramebuffer) -> u8 {
    let first = fb.pixels()[0].to_raw();
    assert!(fb.pixels().iter().all(|p| p.to_raw() == first));
    first[1] - 1
}

#[test]
fn pacing_sleeps_for_the_rest_of_the_budget() {
    let budget = frame_budget_micros(8);
    assert_eq!(budget, 124_800);
    assert_eq!(pacing_sleep_micros(budget, 50_000), 74_800);
    assert_eq!(pacing_sleep_micros(budget, budget), 0);
    assert_eq!(pacing_sleep_micros(budget, 200_000), 0);
    assert_eq!(frame_budget_micros(1), 999_800);
    assert_eq!(frame_budget_micros(24), 41_466);
}

#[test]
fn loop_point_rewinds_after_every_pass() {
    let n = 3u16;
    let mut file = MemoryFile::new(container(n));
    let mut buf = [0u8; FILE_BUFFER_SIZE];
    let mut head = [0u8; 8];
    assert_eq!(file.read(&mut head), Ok(8));
    let h = Header::decode(&head).unwrap();
    let mut player = Player::new(&h).unwrap();
    let mut fb: MainFramebuffer = Framebuffer::new();
    for k in 0..10u16 {
        player.load_next_frame(&mut file, &mut buf, &mut fb).unwrap();
        assert_eq!(shown_frame(&fb), (k % n) as u8);
        assert_eq!(file.offset(), 8 + ((k % n) as usize + 1) * 7200);
    }
}

#[test]
fn single_frame_animation_rewinds_every_time() {
    let mut file = MemoryFile::new(container(1));
    file.seek_from_start(8).unwrap();
    let mut player = Player::new(&header(60, 8, 1)).unwrap();
    let mut buf = [0u8; FILE_BUFFER_SIZE];
    let mut fb: MainFramebuffer = Framebuffer::new();
    for _ in 0..3 {
        player.load_next_frame(&mut file, &mut buf, &mut fb).unwrap();
        assert_eq!(shown_frame(&fb), 0);
        assert_eq!(file.offset(), 8 + 7200);
    }
}

#[test]
fn truncated_container_fails_to_load() {
    let mut data = container(2);
    data.truncate(8 + 7200 + 100);
    let mut file = MemoryFile::new(data);
    let mut player = Player::new(&header(60, 8, 2)).unwrap();
    let mut buf = [0u8; FILE_BUFFER_SIZE];
    let mut fb: MainFramebuffer = Framebuffer::new();
    player.load_next_frame(&mut file, &mut buf, &mut fb).unwrap();
    let r = player.load_next_frame(&mut file, &mut buf, &mut fb);
    assert!(matches!(r, Err(LoadError::ShortRead)));
}

#[test]
fn iteration_order_and_backlight() {
    let mut file = MemoryFile::new(container(2));
    let mut player = Player::new(&header(60, 8, 2)).unwrap();
    let mut buf = [0u8; FILE_BUFFER_SIZE];
    let mut fb: MainFramebuffer = Framebuffer::new();
    player.load_next_frame(&mut file, &mut buf, &mut fb).unwrap();
    let plain = vec![
        Step::AwaitTearingHigh,
        Step::AwaitTearingLow,
        Step::Settle,
        Step::SetBus(BusSpeed::Display),
        Step::Present,
        Step::SetBus(BusSpeed::Storage),
        Step::LoadNextFrame,
        Step::SetBus(BusSpeed::Display),
        Step::Pace,
    ];
    assert_eq!(player.iteration_steps(), plain);
    player.load_next_frame(&mut file, &mut buf, &mut fb).unwrap();
    let mut with_light = plain.clone();
    with_light.insert(5, Step::BacklightOn);
    assert_eq!(player.iteration_steps(), with_light);
    player.load_next_frame(&mut file, &mut buf, &mut fb).unwrap();
    assert_eq!(player.iteration_steps(), plain);
}

#[test]
fn player_quantizes_the_frame_rate() {
    let p = Player::new(&header(120, 24, 5)).unwrap();
    assert_eq!(p.frame_rate(), FrameRate(12));
    assert_eq!(p.budget_micros(), 1_000_000 / 12 - 200);
    assert_eq!(p.size(), Size(120));
    assert_eq!(p.sleep_micros(1_000_000), 0);
    assert_eq!(p.sleep_micros(3_133), 80_000);
    let p = Player::new(&header(240, 0, 5)).unwrap();
    assert_eq!(p.frame_rate(), FrameRate(1));
}

#[test]
fn player_refuses_unplayable_headers() {
    let mut h = header(60, 8, 2);
    h.encoding = Encoding::rgb888();
    assert!(matches!(Player::new(&h), Err(StartError::UnsupportedEncoding(Encoding(0)))));
    assert!(matches!(
        Player::new(&header(61, 8, 2)),
        Err(StartError::Header(Error::UnsupportedSize(Size(61))))
    ));
    assert!(matches!(Player::new(&header(60, 8, 0)), Err(StartError::NoFrames)));
}

#[test]
fn file_choice() {
    assert_eq!(choose_file_index(7, 0), None);
    assert_eq!(choose_file_index(7, 3), Some(1));
    assert_eq!(choose_file_index(u32::MAX, 16), Some(15));
    assert_eq!(choose_file_index(5, 1), Some(0));
}

#[test]
fn directory_filter() {
    assert!(accept_entry(0, false, false, b"LU"));
    assert!(accept_entry(15, false, false, b"LU"));
    assert!(!accept_entry(16, false, false, b"LU"));
    assert!(!accept_entry(0, true, false, b"LU"));
    assert!(!accept_entry(0, false, true, b"LU"));
    assert!(!accept_entry(0, false, false, b"GIF"));
    assert!(!accept_entry(0, false, false, b"lu"));
    assert!(!accept_entry(0, false, false, b""));
}

#[test]
fn refresh_rate_table() {
    assert_eq!(display_refresh_rate(60, 1), Some(RefreshRate::Hz40));
    assert_eq!(display_refresh_rate(120, 3), Some(RefreshRate::Hz42));
    assert_eq!(display_refresh_rate(60, 6), Some(RefreshRate::Hz60));
    assert_eq!(display_refresh_rate(60, 8), Some(RefreshRate::Hz72));
    assert_eq!(display_refresh_rate(120, 10), Some(RefreshRate::Hz90));
    assert_eq!(display_refresh_rate(60, 20), Some(RefreshRate::Hz99));
    assert_eq!(display_refresh_rate(60, 24), Some(RefreshRate::Hz72));
    assert_eq!(display_refresh_rate(240, 3), Some(RefreshRate::Hz60));
    assert_eq!(display_refresh_rate(240, 4), Some(RefreshRate::Hz90));
    assert_eq!(display_refresh_rate(240, 5), None);
    assert_eq!(display_refresh_rate(60, 7), None);
    assert_eq!(display_refresh_rate(100, 4), None);
}
