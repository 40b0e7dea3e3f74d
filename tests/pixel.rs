use luluu::pixel::{scale_channel, Rgb565BE, Rgb565NE, Rgb888, Rgba8888, MAX_5, MAX_6};

#[test]
fn pack_and_unpack() {
    let p = Rgb565NE::pack_565(31, 63, 31);
    assert_eq!(p.to_raw(), 0xffff);
    let p = Rgb565NE::pack_565(1, 2, 3);
    assert_eq!(p.to_raw(), (1 << 11) | (2 << 5) | 3);
    assert_eq!(p.unpack_565(), [1, 2, 3]);
    assert_eq!(Rgb565NE::from_raw(0xf800).unpack_565(), [31, 0, 0]);
}

#[test]
fn byte_order_conversions() {
    let p = Rgb565NE::from_raw(0xabcd);
    let be = p.to_be();
    assert_eq!(be.to_raw(), [0xab, 0xcd]);
    assert_eq!(be.to_ne().to_raw(), 0xabcd);
    assert_eq!(Rgb565BE::from_raw([1, 2]).to_ne().to_raw(), 0x0102);
    assert_eq!(Rgb565BE::zero().to_raw(), [0, 0]);
}

#[test]
fn casting_bytes_to_pixels() {
    let bytes = [1u8, 2, 3, 4, 5, 6];
    let be = Rgb565BE::cast_bytes(&bytes);
    assert_eq!(be.len(), 3);
    assert_eq!(be[2].to_raw(), [5, 6]);
    assert_eq!(Rgb565BE::slice_as_bytes(&be), bytes.to_vec());
    let rgb = Rgb888::cast_bytes(&bytes);
    assert_eq!(rgb.len(), 2);
    assert_eq!(rgb[1].0, [4, 5, 6]);
    let rgba = Rgba8888::cast_bytes(&[9u8, 8, 7, 6]);
    assert_eq!(rgba.len(), 1);
    assert_eq!(rgba[0].rgba(), [9, 8, 7, 6]);
    assert_eq!(rgba[0].rgb(), [9, 8, 7]);
}

#[test]
fn channel_scaling() {
    assert_eq!(scale_channel(255, MAX_5), 31);
    assert_eq!(scale_channel(255, MAX_6), 63);
    assert_eq!(scale_channel(0, MAX_5), 1);
    assert_eq!(scale_channel(85, MAX_6), 21);
    assert_eq!(scale_channel(170, MAX_6), 42);
    assert_eq!(scale_channel(128, MAX_5), 15);
    assert_eq!(scale_channel(8, MAX_5), 1);
}
