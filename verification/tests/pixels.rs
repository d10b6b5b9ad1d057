use unmult::channel::PixelCompute;
use unmult::dominant::max3;
use unmult::kernel::unmult_rgba8;
use unmult::pixel::AbstractRGBAPixel;
use unmult::pixel::ArgbPixel;
use unmult::pixel::RgbaPixel;

#[test]
fn test_rgba_pixel() {
    let p = RgbaPixel::<u8>::new(1, 2, 3, 4);
    assert_eq!(p.red(), 1);
    assert_eq!(p.green(), 2);
    assert_eq!(p.blue(), 3);
    assert_eq!(p.alpha(), 4);
}

#[test]
fn test_pixel_compute() {
    assert_eq!(u8::zero(), 0);
    assert_eq!(u8::scale(), 255);
    assert_eq!(u8::from_normalized(5, 10), 127);
    assert_eq!(u8::from_normalized(0, 10), 0);
    assert_eq!(u8::from_normalized(10, 10), 255);
    assert_eq!(u8::from_normalized(1, 10), 25);
    assert_eq!(u8::from_normalized(9, 10), 229);
    assert_eq!(u8::from_normalized(99, 100), 252);
    assert_eq!(u8::from_normalized(1, 100), 2);
    assert_eq!(u8::from_normalized(1, 1000), 0);
    assert_eq!(u8::from_normalized(999, 1000), 254);

    assert_eq!(u16::zero(), 0);
    assert_eq!(u16::scale(), 65535);
    assert_eq!(u16::from_normalized(5, 10), 32767);
    assert_eq!(u16::from_normalized(0, 10), 0);
    assert_eq!(u16::from_normalized(10, 10), 65535);
    assert_eq!(u16::from_normalized(1, 10), 6553);
    assert_eq!(u16::from_normalized(9, 10), 58981);
    assert_eq!(u16::from_normalized(99, 100), 64879);
    assert_eq!(u16::from_normalized(1, 100), 655);
    assert_eq!(u16::from_normalized(1, 1000), 65);
    assert_eq!(u16::from_normalized(999, 1000), 65469);
}

#[test]
fn test_rgba_pixel_zero() {
    let p = RgbaPixel::<u8>::zero();
    assert_eq!(p.red(), 0);
    assert_eq!(p.green(), 0);
    assert_eq!(p.blue(), 0);
    assert_eq!(p.alpha(), 0);
}

#[test]
fn test_rgba_pixel_from_f32() {
    let p = RgbaPixel::<u8>::new(1, 2, 3, 4);
    let scale = u8::scale() as f32;
    let p_f32 = (
        p.red().to_level() as f32 / scale,
        p.green().to_level() as f32 / scale,
        p.blue().to_level() as f32 / scale,
        p.alpha().to_level() as f32 / scale,
    );
    assert_eq!(p_f32.0, 1.0 / 255.0);
    assert_eq!(p_f32.1, 2.0 / 255.0);
    assert_eq!(p_f32.2, 3.0 / 255.0);
    assert_eq!(p_f32.3, 4.0 / 255.0);
}

#[test]
fn test_rgba_pixel_to_f32() {
    let p = RgbaPixel::<u8>::new(1, 2, 3, 4);
    assert_eq!(p.red().to_level() as f32 / u8::scale() as f32, 1.0 / 255.0);
    assert_eq!(p.green().to_level() as f32 / u8::scale() as f32, 2.0 / 255.0);
    assert_eq!(p.blue().to_level() as f32 / u8::scale() as f32, 3.0 / 255.0);
    assert_eq!(p.alpha().to_level() as f32 / u8::scale() as f32, 4.0 / 255.0);
}

#[test]
fn test_unmult_rgba8() {
    let (r, g, b, a) = unmult_rgba8(0, 0, 0, 255).unwrap();
    assert_eq!((r, g, b, a), (0, 0, 0, 0));

    let (r, g, b, a) = unmult_rgba8(255, 255, 255, 255).unwrap();
    assert_eq!((r, g, b, a), (255, 255, 255, 255));

    let (r, g, b, a) = unmult_rgba8(255, 255, 255, 128).unwrap();
    assert_eq!((r, g, b, a), (255, 255, 255, 128));

    let (r, g, b, a) = unmult_rgba8(255, 255, 255, 0).unwrap();
    assert_eq!((r, g, b, a), (0, 0, 0, 0));

    let (r, g, b, a) = unmult_rgba8(255, 127, 127, 255).unwrap();
    assert_eq!((r, g, b, a), (255, 127, 127, 255));
}

#[test]
fn test_pixel_unmult_u8() {
    let p = RgbaPixel::<u8>::new(0, 0, 0, 255).unmult_rgba();
    assert_eq!(p, RgbaPixel::<u8>::zero());

    let p = RgbaPixel::<u8>::new(255, 255, 255, 255).unmult_rgba();
    assert_eq!(p, RgbaPixel::<u8>::new(255, 255, 255, 255));

    let p = RgbaPixel::<u8>::new(255, 255, 255, 128).unmult_rgba();
    assert_eq!(p, RgbaPixel::<u8>::new(255, 255, 255, 128));

    let p = RgbaPixel::<u8>::new(255, 255, 255, 0).unmult_rgba();
    assert_eq!(p, RgbaPixel::<u8>::zero());

    let p = RgbaPixel::<u8>::new(255, 127, 127, 255).unmult_rgba();
    assert_eq!(p, RgbaPixel::<u8>::new(255, 127, 127, 255));
}

#[test]
fn max3_picks_the_largest() {
    assert_eq!(max3(1u8, 2, 3), 3);
    assert_eq!(max3(3u8, 2, 1), 3);
    assert_eq!(max3(2u8, 3, 1), 3);
    assert_eq!(max3(7u32, 7, 7), 7);
    assert_eq!(max3(0u16, 65535, 65534), 65535);
    assert_eq!(max3(-1i32, -2, -3), -1);
}

#[test]
fn from_normalized_saturates_above_one() {
    assert_eq!(u8::from_normalized(3, 2), 255);
    assert_eq!(u16::from_normalized(3, 2), 65535);
    assert_eq!(u8::from_normalized(u64::MAX, 1), 255);
    assert_eq!(u16::from_normalized(u64::MAX, u64::MAX), 65535);
}

#[test]
fn normalized_round_trip_is_exact() {
    for x in 0u8..=255 {
        let (num, den) = x.to_normalized();
        assert_eq!((num, den), (x as u64, 255));
        assert_eq!(u8::from_normalized(num, den), x);
    }
    for x in [0u16, 1, 2, 255, 256, 32767, 32768, 65534, 65535] {
        let (num, den) = x.to_normalized();
        assert_eq!((num, den), (x as u64, 65535));
        assert_eq!(u16::from_normalized(num, den), x);
    }
}

#[test]
fn channel_widths_and_levels() {
    assert_eq!(u8::width(), 1);
    assert_eq!(u16::width(), 2);
    assert_eq!(200u8.to_level(), 200);
    assert_eq!(40000u16.to_level(), 40000);
}

#[test]
fn sixteen_bit_channels_are_low_byte_first() {
    let mut out: Vec<u8> = vec![9];
    0x1234u16.write(&mut out);
    assert_eq!(out, vec![9, 0x34, 0x12]);
    assert_eq!(u16::read(&out, 1), 0x1234);
    let mut out8: Vec<u8> = Vec::new();
    0xABu8.write(&mut out8);
    assert_eq!(out8, vec![0xAB]);
    assert_eq!(u8::read(&out8, 0), 0xAB);
}

#[test]
fn zero_alpha_gives_zero_pixel_for_every_channel_type() {
    for &(r, g, b) in &[(0u8, 0u8, 0u8), (1, 2, 3), (255, 255, 255), (9, 200, 31)] {
        assert_eq!(unmult_rgba8(r, g, b, 0), Some((0, 0, 0, 0)));
        assert_eq!(RgbaPixel::<u8>::new(r, g, b, 0).unmult_rgba(), RgbaPixel::<u8>::zero());
        assert_eq!(ArgbPixel::<u8>::new(r, g, b, 0).unmult_rgba(), ArgbPixel::<u8>::zero());
    }
    for &(r, g, b) in &[(0u16, 0u16, 0u16), (1, 2, 3), (65535, 65535, 65535), (900, 20000, 31)] {
        assert_eq!(RgbaPixel::<u16>::new(r, g, b, 0).unmult_rgba(), RgbaPixel::<u16>::zero());
        assert_eq!(ArgbPixel::<u16>::new(r, g, b, 0).unmult_rgba(), ArgbPixel::<u16>::zero());
    }
}

#[test]
fn zero_colour_gives_zero_pixel() {
    for a in [1u8, 2, 127, 128, 254, 255] {
        assert_eq!(unmult_rgba8(0, 0, 0, a), Some((0, 0, 0, 0)));
        assert_eq!(ArgbPixel::<u8>::new(0, 0, 0, a).unmult_rgba(), ArgbPixel::<u8>::zero());
    }
    assert_eq!(RgbaPixel::<u16>::new(0, 0, 0, 65535).unmult_rgba(), RgbaPixel::<u16>::zero());
}

#[test]
fn full_scale_dominant_colour_is_a_fixed_point() {
    for a in 1u8..=255 {
        assert_eq!(unmult_rgba8(255, 0, 0, a), Some((255, 0, 0, a)));
        assert_eq!(unmult_rgba8(13, 255, 200, a), Some((13, 255, 200, a)));
        let p = ArgbPixel::<u8>::new(1, 77, 255, a);
        assert_eq!(p.unmult_rgba(), p);
    }
    for a in [1u16, 2, 255, 256, 32768, 65534, 65535] {
        let p = RgbaPixel::<u16>::new(65535, 12345, 1, a);
        assert_eq!(p.unmult_rgba(), p);
    }
}

#[test]
fn unmult_exact_values() {
    // dominant 100: 50 * 255 / 100 = 127.5, 25 * 255 / 100 = 63.75,
    // alpha 100 * 128 / 255 = 50.19...
    assert_eq!(unmult_rgba8(100, 50, 25, 128), Some((255, 127, 63, 50)));
    assert_eq!(
        RgbaPixel::<u8>::new(100, 50, 25, 128).unmult_rgba(),
        RgbaPixel::<u8>::new(255, 127, 63, 50)
    );
    assert_eq!(unmult_rgba8(1, 1, 1, 1), Some((255, 255, 255, 0)));
    assert_eq!(unmult_rgba8(10, 200, 30, 255), Some((12, 255, 38, 200)));
    // sixteen bits: 20000 * 65535 / 40000 = 32767.5, alpha 40000 * 30000 / 65535 = 18310.8...
    assert_eq!(
        RgbaPixel::<u16>::new(40000, 20000, 0, 30000).unmult_rgba(),
        RgbaPixel::<u16>::new(65535, 32767, 0, 18310)
    );
}

#[test]
fn unmult_rgba8_agrees_with_the_pixel_transform() {
    for r in (0u16..=255).step_by(17) {
        for g in (0u16..=255).step_by(51) {
            for b in (0u16..=255).step_by(85) {
                for a in (0u16..=255).step_by(15) {
                    let (r, g, b, a) = (r as u8, g as u8, b as u8, a as u8);
                    let p = RgbaPixel::<u8>::new(r, g, b, a).unmult_rgba();
                    assert_eq!(
                        unmult_rgba8(r, g, b, a),
                        Some((p.red(), p.green(), p.blue(), p.alpha()))
                    );
                    let q = ArgbPixel::<u8>::new(r, g, b, a).unmult_rgba();
                    assert_eq!((q.red(), q.green(), q.blue(), q.alpha()), (p.red(), p.green(), p.blue(), p.alpha()));
                }
            }
        }
    }
}

#[test]
fn dominant_colour_ends_at_full_scale() {
    for &(r, g, b, a) in &[(1u8, 2u8, 3u8, 4u8), (200, 100, 50, 10), (5, 5, 5, 255), (0, 9, 0, 1)] {
        let (x, y, z, w) = unmult_rgba8(r, g, b, a).unwrap();
        assert_eq!(max3(x, y, z), 255);
        let m = max3(r, g, b) as u32;
        assert_eq!(w as u32, m * a as u32 / 255);
    }
}
