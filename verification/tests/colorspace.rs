use unmult::buffer::buffers_from_pixels;
use unmult::colorspace::rgb_to_yuv;
use unmult::colorspace::yuv_to_rgb;
use unmult::colorspace::YuvaPixel;
use unmult::colorspace::COMPONENT_LIMIT;
use unmult::colorspace::FORWARD_UNIT;
use unmult::colorspace::INVERSE_UNIT;
use unmult::error::ProcessingError;
use unmult::format::PixelFormat;
use unmult::pixel::AbstractRGBAPixel;
use unmult::pixel::ArgbPixel;
use unmult::pixel::RgbaPixel;
use unmult::plugin::Plugin;
use unmult::render::unmult_yuva_buffer;

const ONE: i64 = 1_000_000;

fn round_trip(r: i64, g: i64, b: i64) -> (i64, i64, i64) {
    let (y, u, v) = rgb_to_yuv(r, g, b);
    yuv_to_rgb(y, u, v)
}

#[test]
fn test_yuva_pixel() {
    let p = YuvaPixel::<u8>::new(1, 2, 3, 4);
    assert_eq!(p.get_y(), 1);
    assert_eq!(p.get_u(), 2);
    assert_eq!(p.get_v(), 3);
    assert_eq!(p.get_alpha(), 4);
}

#[test]
fn test_yuva_pixel_zero() {
    let p = YuvaPixel::<u8>::zero();
    assert_eq!(p.get_y(), 0);
    assert_eq!(p.get_u(), 0);
    assert_eq!(p.get_v(), 0);
    assert_eq!(p.get_alpha(), 0);
}

#[test]
fn test_rgba_to_yuva() {
    // the colour (0, 0, 1), counted in millionths; the round trip counts in
    // billionths of those
    let (r, g, b) = round_trip(0, 0, ONE);
    let bound = ONE * 1_000_000_000 / 1000;
    assert!((r - 0).abs() < bound);
    assert!((g - 0).abs() < bound);
    assert!((b - ONE * 1_000_000_000).abs() < bound);
}

#[test]
fn test_yuva_to_rgba() {
    let (r, g, b) = (392_157, 588_235, 784_314);
    let (y, u, v) = rgb_to_yuv(r, g, b);
    let (r2, g2, b2) = yuv_to_rgb(y / ONE, u / ONE, v / ONE);
    let (y2, u2, v2) = rgb_to_yuv(r2 / 1000, g2 / 1000, b2 / 1000);
    // all in millionths of millionths; a thousandth of one is 10^9
    assert!((y - y2).abs() < 1_000_000_000);
    assert!((u - u2).abs() < 1_000_000_000);
    assert!((v - v2).abs() < 1_000_000_000);
}

#[test]
fn forward_coefficients() {
    assert_eq!(FORWARD_UNIT, 1_000_000);
    assert_eq!(rgb_to_yuv(1, 0, 0), (299_000, -168_935, 499_813));
    assert_eq!(rgb_to_yuv(0, 1, 0), (587_000, -331_665, -418_531));
    assert_eq!(rgb_to_yuv(0, 0, 1), (114_000, 500_590, -81_282));
    assert_eq!(rgb_to_yuv(1, 1, 1), (1_000_000, -10, 0));
    assert_eq!(rgb_to_yuv(10, 20, 30), (18_150_000, 6_695_050, -5_810_950));
    assert_eq!(rgb_to_yuv(-1, 0, 0), (-299_000, 168_935, -499_813));
}

#[test]
fn inverse_coefficients() {
    assert_eq!(INVERSE_UNIT, 1_000);
    assert_eq!(yuv_to_rgb(1, 0, 0), (1_000, 1_000, 1_000));
    assert_eq!(yuv_to_rgb(0, 1, 0), (0, -344, 1_770));
    assert_eq!(yuv_to_rgb(0, 0, 1), (1_403, -714, 0));
    assert_eq!(yuv_to_rgb(100, -20, 30), (142_090, 85_460, 64_600));
}

#[test]
fn exchange_takes_components_up_to_the_limit() {
    let l = COMPONENT_LIMIT;
    assert_eq!(rgb_to_yuv(l, l, l), (1_000_000 * l, -10 * l, 0));
    assert_eq!(rgb_to_yuv(-l, -l, -l), (-1_000_000 * l, 10 * l, 0));
    assert_eq!(yuv_to_rgb(l, l, l), (2_403 * l, -58 * l, 2_770 * l));
    assert_eq!(yuv_to_rgb(l, -l, -l), (-403 * l, 2_058 * l, -770 * l));
}

#[test]
fn round_trip_error_is_below_a_thousandth() {
    let bound = ONE * 1_000_000_000 / 1000;
    let steps = [0, 1, 250_000, 333_333, 500_000, 750_001, 999_999, ONE];
    for &r in &steps {
        for &g in &steps {
            for &b in &steps {
                let (r2, g2, b2) = round_trip(r, g, b);
                assert!((r2 - r * 1_000_000_000).abs() < bound);
                assert!((g2 - g * 1_000_000_000).abs() < bound);
                assert!((b2 - b * 1_000_000_000).abs() < bound);
            }
        }
    }
    // the exact distance for pure red: 237639, -247158 and -14950 billionths
    let (r2, g2, b2) = round_trip(ONE, 0, 0);
    assert_eq!(r2 - ONE * 1_000_000_000, 237_639 * ONE);
    assert_eq!(g2, 247_158 * ONE);
    assert_eq!(b2, -14_950 * ONE);
}

#[test]
fn pixel_to_luma_and_chroma() {
    let red = YuvaPixel::<u8>::from_rgba(&RgbaPixel::<u8>::new(255, 0, 0, 200));
    assert_eq!(red, YuvaPixel::<u8>::new(76, 0, 127, 200));
    let blue = YuvaPixel::<u8>::from_rgba(&ArgbPixel::<u8>::new(0, 0, 255, 7));
    assert_eq!(blue, YuvaPixel::<u8>::new(29, 127, 0, 7));
    let white = YuvaPixel::<u8>::from_rgba(&RgbaPixel::<u8>::new(255, 255, 255, 255));
    assert_eq!(white, YuvaPixel::<u8>::new(255, 0, 0, 255));
    let green = YuvaPixel::<u16>::from_rgba(&RgbaPixel::<u16>::new(0, 65535, 0, 1));
    assert_eq!(green, YuvaPixel::<u16>::new(38469, 0, 0, 1));
    let black = YuvaPixel::<u8>::from_rgba(&RgbaPixel::<u8>::zero());
    assert_eq!(black, YuvaPixel::<u8>::zero());
}

#[test]
fn pixel_from_luma_and_chroma() {
    let p: RgbaPixel<u8> = YuvaPixel::<u8>::new(76, 0, 127, 200).to_rgba();
    assert_eq!(p, RgbaPixel::<u8>::new(254, 0, 76, 200));
    let q: ArgbPixel<u8> = YuvaPixel::<u8>::new(128, 0, 0, 255).to_rgba();
    assert_eq!(q, ArgbPixel::<u8>::new(128, 128, 128, 255));
    // red and blue above one are stored as full scale
    let s: RgbaPixel<u8> = YuvaPixel::<u8>::new(255, 255, 255, 9).to_rgba();
    assert_eq!(s, RgbaPixel::<u8>::new(255, 0, 255, 9));
    let w: RgbaPixel<u16> = YuvaPixel::<u16>::new(1000, 100, 10, 65535).to_rgba();
    assert_eq!(w, RgbaPixel::<u16>::new(1014, 958, 1177, 65535));
}

#[test]
fn render_luma_and_chroma_buffer() {
    let plugin = Plugin::default();
    let input = vec![128u8, 0, 0, 255, 0, 0, 0, 255, 200, 10, 20, 0, 76, 0, 127, 200];
    let mut output = vec![0u8; 16];
    assert_eq!(
        plugin.do_render(PixelFormat::Yuva8, PixelFormat::Yuva8, &input, &mut output),
        Ok(())
    );
    // grey 128 becomes white with alpha 128; (76, 0, 127) is (254, 0, 76) in
    // colour, which becomes (255, 0, 76) with alpha 254 * 200 / 255 = 199
    assert_eq!(output, vec![255, 0, 0, 128, 0, 0, 0, 0, 0, 0, 0, 0, 84, 0, 121, 199]);

    let mut wide_out = vec![0u8; 8];
    let wide_in = buffers_from_pixels(&[RgbaPixel::<u16>::new(32768, 0, 0, 65535)]);
    assert_eq!(unmult_yuva_buffer::<u16>(&wide_in, &mut wide_out), Ok(()));
    assert_eq!(
        RgbaPixel::<u16>::buffer_as_slice_from(&wide_out).unwrap(),
        vec![RgbaPixel::<u16>::new(65535, 0, 0, 32768)]
    );

    let mut odd = vec![1u8; 6];
    assert_eq!(
        plugin.do_render(PixelFormat::Yuva8, PixelFormat::Yuva8, &[0u8; 6], &mut odd),
        Err(ProcessingError::InvalidBufferSize)
    );
    assert_eq!(odd, vec![1u8; 6]);
}
