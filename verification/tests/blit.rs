use deskkin::blit::{alpha_scalar_ordered, blit_span};
use deskkin::blit::{alpha_pixel, alpha_scalar, alpha_span, vector_span, PieBlitter};

#[test]
fn alpha_endpoints_and_component_bounds() {
    for d in 0..64u16 {
        for s in 0..64u16 {
            for a in 0..=255u8 {
                let pixel = alpha_pixel(d << 5, s << 5, a);
                assert_eq!(pixel & !0x07e0, 0);
                assert!((d.min(s)..=d.max(s)).contains(&(pixel >> 5)));
                if a == 0 {
                    assert_eq!(pixel, d << 5);
                }
                if a == 255 {
                    assert_eq!(pixel, s << 5);
                }
            }
        }
    }
}

#[test]
fn alpha_vector_reads_stay_in_independent_backings() {
    for sp in (0..16).step_by(2) {
        for dp in (0..16).step_by(2) {
            for ap in 0..16 {
                for len in 0..=320 {
                    for before in [0, 1, 7, 15] {
                        for after in [0, 1, 7, 15] {
                            let size = before + len + after;
                            let (prefix, bulk) =
                                alpha_span(64 + dp, 64 + sp, size, 64 + ap, size, before, len);
                            assert!(prefix + bulk <= len);
                            assert_eq!(bulk % 8, 0);
                            if bulk > 0 {
                                assert_eq!((64 + dp + prefix * 2) % 16, 0);
                                for (base, scale) in [(64 + sp, 2), (64 + ap, 1)] {
                                    let first = base + (before + prefix) * scale;
                                    let end = first + bulk * scale;
                                    assert!(first & !15 >= base);
                                    assert!(end.div_ceil(16) * 16 <= base + size * scale);
                                }
                            }
                        }
                    }
                }
            }
        }
    }
}

#[test]
fn vector_reads_and_writes_stay_in_backing_slices() {
    for src_phase in (0..16).step_by(2) {
        for dst_phase in (0..16).step_by(2) {
            for len in 0..=320 {
                for before in 0..16 {
                    for after in 0..16 {
                        let base = 64 + src_phase;
                        let (prefix, bulk) = vector_span(
                            64 + dst_phase,
                            base,
                            before + len + after,
                            before,
                            len,
                        );
                        assert!(prefix + bulk <= len);
                        assert_eq!(bulk % 8, 0);
                        if bulk > 0 {
                            assert_eq!((64 + dst_phase + prefix * 2) % 16, 0);
                            let first = base + (before + prefix) * 2;
                            let end = first + bulk * 2;
                            assert!(first & !15 >= base);
                            assert!(end.div_ceil(16) * 16 <= base + (before + len + after) * 2);
                        }
                    }
                }
            }
        }
    }
}

#[test]
fn alpha_pixel_blends_each_channel_exactly() {
    // Coverage 128 weighs 129/256: white over black moves each channel
    // 129/256 of the way up, rounded down: 15 of 31 and 31 of 63.
    assert_eq!(alpha_pixel(0x0000, 0xffff, 128), (15 << 11) | (31 << 5) | 15);
    // Red only, a quarter of the way from 31 down to 0: 31 + floor(-31 * 64 / 256) = 23.
    assert_eq!(alpha_pixel(0xf800, 0x0000, 64), 23 << 11);
}

#[test]
fn aligned_backings_take_only_the_destination_prefix() {
    assert_eq!(vector_span(66, 64, 64, 0, 32), (7, 24));
    assert_eq!(alpha_span(66, 64, 64, 128, 64, 0, 32), (7, 24));
    assert_eq!(vector_span(64, 64, 64, 0, 3), (0, 0));
}

#[test]
fn scalar_alpha_skips_transparent_and_copies_opaque() {
    let mut dst = [0x1111u16, 0x2222, 0x3333, 0x4444];
    let src = [0xaaaau16, 0xbbbb, 0xcccc];
    let alpha = [0u8, 255, 128, 255];
    alpha_scalar(&mut dst, &src, &alpha, false);
    assert_eq!(dst[0], 0x1111);
    assert_eq!(dst[1], 0xbbbb);
    assert_eq!(dst[2], alpha_pixel(0x3333, 0xcccc, 128));
    assert_eq!(dst[3], 0x4444);

    let mut wire = [0x1111u16.to_be(), 0x2222u16.to_be()];
    alpha_scalar(&mut wire, &[0x5555, 0xcccc], &[255, 128], true);
    assert_eq!(wire[0], 0x5555u16.to_be());
    assert_eq!(wire[1], alpha_pixel(0x2222, 0xcccc, 128).to_be());
}

#[test]
fn blitter_profile_reports_microseconds_and_pixels() {
    let mut blitter = PieBlitter::default();
    blitter.record(false, 480, 320);
    blitter.record(true, 2400, 16);
    blitter.record(true, 239, 8);
    assert_eq!(blitter.profile(), [2, 10, 320, 24]);
}

#[test]
fn blit_from_copies_or_blends_the_clipped_source_span() {
    let mut blitter = PieBlitter::default();
    let source = [0x0101u16, 0x0202, 0x0303, 0x0404, 0x0505];
    let mut copy = [0u16; 3];
    blitter.blit_from(&mut copy, &source, 1, None, false, 480);
    assert_eq!(copy, [0x0202, 0x0303, 0x0404]);

    let coverage = [9u8, 0, 255, 128, 7];
    let mut blended = [0x1111u16, 0x2222, 0x3333];
    blitter.blit_from(&mut blended, &source, 1, Some(&coverage), false, 2400);
    assert_eq!(blended, [0x1111, 0x0303, alpha_pixel(0x3333, 0x0404, 128)]);
    assert_eq!(blitter.profile(), [2, 10, 3, 3]);

    let mut wire = [0u16; 2];
    blitter.blit(&mut wire, &[0x1234, 0xabcd], None, true, 0);
    assert_eq!(wire, [0x1234u16.to_be(), 0xabcdu16.to_be()]);
    assert_eq!(blitter.profile(), [2, 10, 5, 3]);
}

#[test]
fn explicit_byte_order_gives_the_exact_result() {
    let mut plain = [0x1111u16, 0x2222];
    alpha_scalar_ordered(&mut plain, &[0x5555, 0xcccc], &[255, 128], false);
    assert_eq!(plain, [0x5555, alpha_pixel(0x2222, 0xcccc, 128)]);
    let mut swapped = [0x1111u16.swap_bytes(), 0x2222u16.swap_bytes()];
    alpha_scalar_ordered(&mut swapped, &[0x5555, 0xcccc], &[255, 128], true);
    assert_eq!(swapped, [0x5555u16.swap_bytes(), alpha_pixel(0x2222, 0xcccc, 128).swap_bytes()]);

    let mut copy = [0u16; 2];
    blit_span(&mut copy, &[0x0102, 0x0304, 0x0506], 1, None, true);
    assert_eq!(copy, [0x0403, 0x0605]);
    let mut blended = [0x1111u16, 0x2222];
    blit_span(&mut blended, &[0x0102, 0x0304, 0x0506], 1, Some(&[9, 0, 255]), false);
    assert_eq!(blended, [0x1111, 0x0506]);
}
