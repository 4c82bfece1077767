use ma_tif::format::PixelFormat;
use ma_tif::pixel::{
    checked_pad_width, pad_width, pixel_to_argb4444, pixel_to_argb8888, pixel_to_l8,
    pixel_to_la88, pixel_to_rgb565, push_padding, push_sample, Rgba8,
};

fn px(r: u8, g: u8, b: u8, a: u8) -> Rgba8 {
    Rgba8 { r, g, b, a }
}

#[test]
fn argb8888_formula() {
    assert_eq!(pixel_to_argb8888(px(0x12, 0x34, 0x56, 0x78)), 0x7812_3456);
    assert_eq!(pixel_to_argb8888(px(0, 0, 0, 0)), 0);
    assert_eq!(pixel_to_argb8888(px(255, 255, 255, 255)), 0xFFFF_FFFF);
    assert_eq!(pixel_to_argb8888(px(255, 0, 0, 0)), 0x00FF_0000);
    assert_eq!(pixel_to_argb8888(px(0, 0, 0, 255)), 0xFF00_0000);
}

#[test]
fn rgb565_formula() {
    assert_eq!(pixel_to_rgb565(px(255, 255, 255, 0)), 0xFFFF);
    assert_eq!(pixel_to_rgb565(px(255, 0, 0, 255)), 0xF800);
    assert_eq!(pixel_to_rgb565(px(0, 255, 0, 255)), 0x07E0);
    assert_eq!(pixel_to_rgb565(px(0, 0, 255, 255)), 0x001F);
    // 0x12 >> 3 = 2, 0x34 >> 2 = 13, 0x56 >> 3 = 10
    assert_eq!(pixel_to_rgb565(px(0x12, 0x34, 0x56, 0x78)), (2 << 11) | (13 << 5) | 10);
    // The low bits of each channel are lost.
    assert_eq!(pixel_to_rgb565(px(7, 3, 7, 9)), 0);
    // Alpha does not count.
    assert_eq!(pixel_to_rgb565(px(8, 4, 8, 0)), pixel_to_rgb565(px(8, 4, 8, 255)));
}

#[test]
fn argb4444_formula() {
    assert_eq!(pixel_to_argb4444(px(0x12, 0x34, 0x56, 0x78)), 0x7135);
    assert_eq!(pixel_to_argb4444(px(255, 255, 255, 255)), 0xFFFF);
    assert_eq!(pixel_to_argb4444(px(15, 15, 15, 15)), 0);
    assert_eq!(pixel_to_argb4444(px(0, 0, 0, 0xF0)), 0xF000);
    assert_eq!(pixel_to_argb4444(px(0xF0, 0, 0, 0)), 0x0F00);
}

#[test]
fn luminance_formulas() {
    assert_eq!(pixel_to_l8(px(0x12, 0x34, 0x56, 0x78)), 0x12);
    assert_eq!(pixel_to_l8(px(255, 0, 0, 0)), 255);
    assert_eq!(pixel_to_la88(px(0x12, 0x34, 0x56, 0x78)), 0x1234);
    assert_eq!(pixel_to_la88(px(255, 0, 9, 9)), 0xFF00);
    assert_eq!(pixel_to_la88(px(0, 255, 9, 9)), 0x00FF);
}

#[test]
fn unpacking_gives_the_stored_precision() {
    for (r, g, b, a) in [(0u8, 0u8, 0u8, 0u8), (255, 255, 255, 255), (0x12, 0x34, 0x56, 0x78), (
        7,
        3,
        15,
        16,
    ), (200, 100, 50, 25)] {
        let p = px(r, g, b, a);

        let v = pixel_to_argb8888(p);
        assert_eq!(((v >> 24) as u8, (v >> 16) as u8, (v >> 8) as u8, v as u8), (a, r, g, b));

        let v = pixel_to_rgb565(p);
        assert_eq!(((v >> 11) & 0x1f, (v >> 5) & 0x3f, v & 0x1f), (
            (r >> 3) as u16,
            (g >> 2) as u16,
            (b >> 3) as u16,
        ));

        let v = pixel_to_argb4444(p);
        assert_eq!(((v >> 12) & 0xf, (v >> 8) & 0xf, (v >> 4) & 0xf, v & 0xf), (
            (a >> 4) as u16,
            (r >> 4) as u16,
            (g >> 4) as u16,
            (b >> 4) as u16,
        ));

        assert_eq!(pixel_to_l8(p), r);

        let v = pixel_to_la88(p);
        assert_eq!(((v >> 8) as u8, v as u8), (r, g));
    }
}

#[test]
fn samples_are_stored_little_endian() {
    let p = px(0x12, 0x34, 0x56, 0x78);
    let mut buf = vec![0xAA];
    push_sample(&mut buf, PixelFormat::Argb8888, p);
    assert_eq!(buf, [0xAA, 0x56, 0x34, 0x12, 0x78]);

    let mut buf = Vec::new();
    push_sample(&mut buf, PixelFormat::Rgb565, p);
    assert_eq!(buf, 0x11AAu16.to_le_bytes());

    let mut buf = Vec::new();
    push_sample(&mut buf, PixelFormat::Argb4444, p);
    assert_eq!(buf, [0x35, 0x71]);

    let mut buf = Vec::new();
    push_sample(&mut buf, PixelFormat::L8, p);
    assert_eq!(buf, [0x12]);

    let mut buf = Vec::new();
    push_sample(&mut buf, PixelFormat::La88, p);
    assert_eq!(buf, [0x34, 0x12]);

    let mut buf = vec![1, 2];
    push_sample(&mut buf, PixelFormat::Dxt1, p);
    assert_eq!(buf, [1, 2]);
}

#[test]
fn padding_is_a_zero_of_the_sample_width() {
    for (format, width) in [
        (PixelFormat::Argb8888, 4),
        (PixelFormat::Rgb565, 2),
        (PixelFormat::Argb4444, 2),
        (PixelFormat::L8, 1),
        (PixelFormat::La88, 2),
        (PixelFormat::Dxt3, 0),
    ] {
        let mut buf = vec![7u8];
        push_padding(&mut buf, format);
        assert_eq!(buf.len(), 1 + width);
        assert!(buf[1..].iter().all(|&b| b == 0));
        assert_eq!(buf[0], 7);
    }
}

#[test]
fn padded_width_is_the_next_multiple_of_16() {
    assert_eq!(pad_width(0), 0);
    assert_eq!(pad_width(1), 16);
    assert_eq!(pad_width(15), 16);
    assert_eq!(pad_width(16), 16);
    assert_eq!(pad_width(17), 32);
    assert_eq!(pad_width(100), 112);
    assert_eq!(pad_width(256), 256);
    assert_eq!(pad_width(0xFFFF_FFF0), 0xFFFF_FFF0);
    assert_eq!(pad_width(0xFFFF_FFEF), 0xFFFF_FFF0);
    for w in 0..200u32 {
        let p = pad_width(w);
        assert_eq!(p % 16, 0);
        assert!(p >= w && p < w + 16);
        assert_eq!(p == w, w % 16 == 0);
    }
}

#[test]
fn padded_width_that_does_not_fit() {
    assert_eq!(checked_pad_width(17), Some(32));
    assert_eq!(checked_pad_width(0), Some(0));
    assert_eq!(checked_pad_width(0xFFFF_FFF0), Some(0xFFFF_FFF0));
    assert_eq!(checked_pad_width(0xFFFF_FFF1), None);
    assert_eq!(checked_pad_width(0xFFFF_FFFF), None);
}
