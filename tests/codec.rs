use luluu::codec::{
    Encoding, Error, FrameRate, Header, MagicBytes, NumFrames, Size, Version, HEADER_SIZE,
};

fn header(size: u8, rate: u8, n: u16) -> Header {
    Header {
        magic: MagicBytes::correct(),
        version: Version::zero(),
        encoding: Encoding::rgb565be(),
        size: Size(size),
        frame_rate: FrameRate(rate),
        n_frames: NumFrames::from_u16(n),
    }
}

#[test]
fn header_layout_is_byte_exact() {
    let h = header(120, 10, 0x0102);
    assert_eq!(h.as_bytes(), [b'L', b'U', 0, 1, 120, 10, 0x02, 0x01]);
    assert_eq!(HEADER_SIZE, 8);
}

#[test]
fn decode_encode_round_trip() {
    for &(size, rate) in &[(60u8, 24u8), (60, 1), (120, 12), (120, 3), (240, 8), (240, 4)] {
        for &n in &[1u16, 2, 255, 256, 65535] {
            let h = header(size, rate, n);
            let back = Header::decode(&h.as_bytes()).unwrap();
            assert_eq!(back, h);
            assert_eq!(back.n_frames.as_u16(), n);
        }
    }
    let mut h = header(60, 5, 7);
    h.encoding = Encoding::rgb888();
    assert_eq!(Header::decode(&h.as_bytes()), Ok(h));
}

#[test]
fn mutated_magic_is_rejected() {
    let mut b = header(60, 8, 3).as_bytes();
    b[0] ^= 0xff;
    assert_eq!(
        Header::decode(&b),
        Err(Error::WrongMagicBytes(MagicBytes([b'L' ^ 0xff, b'U'])))
    );
    let mut b = header(60, 8, 3).as_bytes();
    b[1] = b'X';
    assert_eq!(Header::decode(&b), Err(Error::WrongMagicBytes(MagicBytes([b'L', b'X']))));
}

#[test]
fn mutated_version_is_rejected() {
    let mut b = header(60, 8, 3).as_bytes();
    b[2] = 1;
    assert_eq!(Header::decode(&b), Err(Error::UnknownVersion(Version(1))));
}

#[test]
fn mutated_encoding_is_rejected() {
    let mut b = header(60, 8, 3).as_bytes();
    b[3] = 2;
    assert_eq!(Header::decode(&b), Err(Error::UnknownEncoding(Encoding(2))));
}

#[test]
fn mutated_size_is_rejected() {
    let mut b = header(60, 8, 3).as_bytes();
    b[4] = 61;
    assert_eq!(Header::decode(&b), Err(Error::UnsupportedSize(Size(61))));
    b[4] = 0;
    assert_eq!(Header::decode(&b), Err(Error::UnsupportedSize(Size(0))));
}

#[test]
fn mutated_frame_rate_is_rejected() {
    let mut b = header(60, 8, 3).as_bytes();
    b[5] = 7;
    assert_eq!(Header::decode(&b), Err(Error::UnsupportedFrameRate(FrameRate(7))));
    let mut b = header(240, 8, 3).as_bytes();
    b[5] = 10;
    assert_eq!(Header::decode(&b), Err(Error::UnsupportedFrameRate(FrameRate(10))));
}

#[test]
fn checks_run_in_order() {
    let b = [b'X', b'U', 9, 9, 9, 9, 0, 0];
    assert!(matches!(Header::decode(&b), Err(Error::WrongMagicBytes(_))));
    let b = [b'L', b'U', 9, 9, 9, 9, 0, 0];
    assert_eq!(Header::decode(&b), Err(Error::UnknownVersion(Version(9))));
    let b = [b'L', b'U', 0, 9, 9, 9, 0, 0];
    assert_eq!(Header::decode(&b), Err(Error::UnknownEncoding(Encoding(9))));
    let b = [b'L', b'U', 0, 1, 9, 9, 0, 0];
    assert_eq!(Header::decode(&b), Err(Error::UnsupportedSize(Size(9))));
}

#[test]
fn frame_rate_support_table() {
    for r in [1u8, 2, 3, 4, 5, 6, 8] {
        for s in [60u8, 120, 240] {
            assert!(FrameRate(r).is_supported(s));
        }
    }
    for r in [10u8, 12] {
        assert!(FrameRate(r).is_supported(60));
        assert!(FrameRate(r).is_supported(120));
        assert!(!FrameRate(r).is_supported(240));
    }
    for r in [15u8, 20, 24] {
        assert!(FrameRate(r).is_supported(60));
        assert!(!FrameRate(r).is_supported(120));
        assert!(!FrameRate(r).is_supported(240));
    }
    for r in [0u8, 7, 9, 11, 13, 16, 25, 30, 255] {
        assert!(!FrameRate(r).is_supported(60));
    }
}

#[test]
fn size_support() {
    assert!(Size(60).is_supported());
    assert!(Size(120).is_supported());
    assert!(Size(240).is_supported());
    assert!(!Size(59).is_supported());
    assert!(!Size(0).is_supported());
    assert!(!Size(255).is_supported());
}

fn quantize(rate: u8, size: u8) -> u8 {
    let mut r = FrameRate(rate);
    r.make_nearest_supported(Size(size)).unwrap();
    r.0
}

#[test]
fn quantization_table() {
    assert_eq!(quantize(0, 60), 1);
    assert_eq!(quantize(7, 60), 8);
    assert_eq!(quantize(9, 60), 10);
    assert_eq!(quantize(13, 60), 12);
    assert_eq!(quantize(16, 60), 15);
    assert_eq!(quantize(21, 60), 20);
    assert_eq!(quantize(26, 60), 24);
    assert_eq!(quantize(30, 60), 15);
    assert_eq!(quantize(5, 60), 5);
    assert_eq!(quantize(17, 60), 15);
    assert_eq!(quantize(19, 60), 20);
    assert_eq!(quantize(22, 60), 24);
}

#[test]
fn quantization_clamps_by_size() {
    assert_eq!(quantize(16, 120), 12);
    assert_eq!(quantize(30, 120), 12);
    assert_eq!(quantize(10, 120), 10);
    assert_eq!(quantize(7, 240), 4);
    assert_eq!(quantize(8, 240), 4);
    assert_eq!(quantize(3, 240), 3);
    assert_eq!(quantize(0, 240), 1);
}

#[test]
fn quantization_rejects_unknown_size() {
    let mut r = FrameRate(30);
    assert_eq!(r.make_nearest_supported(Size(100)), Err(Error::UnsupportedSize(Size(100))));
    assert_eq!(r, FrameRate(30));
}

#[test]
fn frame_count_is_little_endian() {
    assert_eq!(NumFrames::from_u16(0x1234), NumFrames([0x34, 0x12]));
    assert_eq!(NumFrames([0xff, 0x00]).as_u16(), 255);
    assert_eq!(NumFrames([0x00, 0x01]).as_u16(), 256);
}
