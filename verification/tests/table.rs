use unmult::lut::get_lut;
use unmult::lut::inner_render_2;
use unmult::lut::LUT_SIZE;
use unmult::pixel::AbstractRGBAPixel;
use unmult::pixel::ArgbPixel;

#[test]
fn lut_is_exact_at_every_index() {
    let lut = get_lut();
    assert_eq!(LUT_SIZE, 65536);
    for i in 0..65536usize {
        let a = (i >> 8) as u32;
        let v = (i & 0xFF) as u32;
        let expected = if a == 0 {
            0
        } else if (v << 8) / a > 255 {
            255
        } else {
            (v << 8) / a
        };
        assert_eq!(lut.get(i) as u32, expected);
        assert_eq!(lut.lookup(a as u8, v as u8) as u32, expected);
    }
}

#[test]
fn lut_known_entries() {
    let lut = get_lut();
    assert_eq!(lut.get(0xFFFF), 0xFF);
    assert_eq!(lut.get(0), 0);
    assert_eq!(lut.lookup(0, 255), 0);
    assert_eq!(lut.lookup(255, 0), 0);
    assert_eq!(lut.lookup(255, 255), 255);
    assert_eq!(lut.lookup(255, 128), 128);
    assert_eq!(lut.lookup(255, 127), 127);
    assert_eq!(lut.lookup(128, 64), 128);
    assert_eq!(lut.lookup(3, 1), 85);
    assert_eq!(lut.lookup(1, 1), 255);
    assert_eq!(lut.lookup(2, 1), 128);
    assert_eq!(lut.lookup(200, 100), 128);
    assert_eq!(lut.lookup(100, 200), 255);
}

#[test]
fn inner_render_2_reads_the_table() {
    let lut = get_lut();
    let mut out = ArgbPixel::<u8>::zero();

    inner_render_2(&lut, &ArgbPixel::<u8>::new(0xFF, 0, 0, 0x88), &mut out);
    assert_eq!(out, ArgbPixel::<u8>::new(255, 0, 0, 135));

    inner_render_2(&lut, &ArgbPixel::<u8>::new(100, 50, 25, 128), &mut out);
    assert_eq!(out, ArgbPixel::<u8>::new(255, 128, 64, 50));

    inner_render_2(&lut, &ArgbPixel::<u8>::new(0, 0, 0, 255), &mut out);
    assert_eq!(out, ArgbPixel::<u8>::new(0, 0, 0, 0));

    inner_render_2(&lut, &ArgbPixel::<u8>::new(255, 255, 255, 255), &mut out);
    assert_eq!(out, ArgbPixel::<u8>::new(255, 255, 255, 254));

    inner_render_2(&lut, &ArgbPixel::<u8>::new(10, 20, 40, 0), &mut out);
    assert_eq!(out, ArgbPixel::<u8>::new(64, 128, 255, 0));
}

#[test]
fn fast_path_is_within_one_level_of_the_exact_transform() {
    let lut = get_lut();
    let mut out = ArgbPixel::<u8>::zero();
    for r in (0u16..=255).step_by(5) {
        for g in (0u16..=255).step_by(51) {
            for b in (0u16..=255).step_by(85) {
                for a in (1u16..=255).step_by(2) {
                    let p = ArgbPixel::<u8>::new(r as u8, g as u8, b as u8, a as u8);
                    let exact = p.unmult_rgba();
                    inner_render_2(&lut, &p, &mut out);
                    for (e, f) in [
                        (exact.red(), out.red()),
                        (exact.green(), out.green()),
                        (exact.blue(), out.blue()),
                    ] {
                        assert!(e <= f && f as u16 <= e as u16 + 1);
                    }
                    assert!(out.alpha() <= exact.alpha());
                    assert!(exact.alpha() as u16 <= out.alpha() as u16 + 1);
                }
            }
        }
    }
}
