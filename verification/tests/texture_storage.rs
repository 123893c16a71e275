use deskkin::texture_storage::{coverage_kind, row_stride, select_level, Alpha, Colors, CoverageKind, Plane};

/// The address of a value, read from its pointer formatting.
fn address<T>(value: &T) -> usize {
    let text = format!("{value:p}");
    usize::from_str_radix(text.trim_start_matches("0x"), 16).unwrap()
}

#[test]
fn aligned_rows_preserve_texels_and_zero_padding() {
    for width in 1..=320 {
        let stride = usize::from(row_stride(width));
        let colors = Colors::from_fn(stride * 7, |i| {
            if i % stride < usize::from(width) {
                i as u16
            } else {
                0
            }
        })
        .unwrap();
        let alpha = Alpha::from_fn(stride * 7, |i| {
            if i % stride < usize::from(width) {
                i as u8
            } else {
                0
            }
        })
        .unwrap();
        let colors = colors.as_slice();
        let alpha = alpha.as_slice();
        for y in 0..7 {
            assert_eq!(address(&colors[y * stride]) % 16, 0);
            assert_eq!(address(&alpha[y * stride]) % 16, 0);
            for x in 0..stride {
                let i = y * stride + x;
                assert_eq!(colors[i], if x < usize::from(width) { i as u16 } else { 0 });
                assert_eq!(alpha[i], if x < usize::from(width) { i as u8 } else { 0 });
            }
        }
    }
}

#[test]
fn row_stride_rounds_up_to_sixteen_pixels() {
    assert_eq!(row_stride(0), 0);
    assert_eq!(row_stride(1), 16);
    assert_eq!(row_stride(16), 16);
    assert_eq!(row_stride(17), 32);
    assert_eq!(row_stride(320), 320);
    assert_eq!(row_stride(65520), 65520);
}

#[test]
fn place_pads_with_defaults_and_refuses_far_offsets() {
    let plane = Plane::<u16, 8>::place(Vec::new(), 3, 8, |i| i as u16 + 100).unwrap();
    assert_eq!(plane.as_slice(), &[100, 101, 102, 103, 104, 105, 106, 107]);
    assert!(Plane::<u16, 8>::place(Vec::new(), 8, 8, |i| i as u16).is_none());
    let empty = Plane::<u8, 16>::place(Vec::new(), 0, 0, |_| 1).unwrap();
    assert!(empty.as_slice().is_empty());
}

#[test]
fn coverage_storage_follows_the_alpha_values() {
    assert_eq!(coverage_kind(&[255, 255, 255]), CoverageKind::Opaque);
    assert_eq!(coverage_kind(&[]), CoverageKind::Opaque);
    assert_eq!(coverage_kind(&[255, 0, 255, 0]), CoverageKind::Cutout);
    assert_eq!(coverage_kind(&[0, 0]), CoverageKind::Cutout);
    assert_eq!(coverage_kind(&[255, 0, 128]), CoverageKind::Alpha8);
}

#[test]
fn mip_selection_stops_at_the_first_level_smaller_than_the_rectangle() {
    let levels = vec![(72u16, 78u16), (36, 39), (18, 20), (9, 10)];
    assert_eq!(select_level(&levels, 100, 100), 0);
    assert_eq!(select_level(&levels, 72, 78), 1);
    assert_eq!(select_level(&levels, 30, 30), 2);
    assert_eq!(select_level(&levels, 30, 40), 1);
    assert_eq!(select_level(&levels, 1, 1), 4);
    assert_eq!(select_level(&levels, -5, 0), 4);
    assert_eq!(select_level(&[].to_vec(), 1, 1), 0);
}
