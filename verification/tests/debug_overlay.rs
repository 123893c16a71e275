use deskkin::debug_overlay::{DebugOverlay, BACKGROUND, FOREGROUND, OVERLAY_WIDTH};

#[test]
fn fps_uses_elapsed_frame_intervals_and_rounds() {
    let mut overlay = DebugOverlay::default();
    overlay.begin_frame(10_000);
    for frame in 1..=13 {
        overlay.begin_frame(10_000 + frame * 20_000);
    }
    assert_eq!(overlay.fps, 0);
    for frame in 14..=25 {
        overlay.begin_frame(10_000 + frame * 20_000);
    }
    assert_eq!(overlay.fps, 50);
}

#[test]
fn overlay_is_opaque_clipped_and_preserves_guards() {
    const STRIDE: usize = 64;
    const ROWS: usize = 8;
    const GUARD: usize = 7;
    let mut storage = [0x1234_u16; GUARD + STRIDE * ROWS + GUARD];
    let overlay = DebugOverlay {
        fps: 26,
        ..DebugOverlay::default()
    };
    overlay.draw_band(&mut storage[GUARD..GUARD + STRIDE * ROWS], STRIDE, 0, ROWS);
    assert!(storage[..GUARD].iter().all(|value| *value == 0x1234));
    assert!(storage[GUARD + STRIDE * ROWS..]
        .iter()
        .all(|value| *value == 0x1234));
    assert!(storage[GUARD..GUARD + STRIDE * ROWS]
        .iter()
        .all(|value| matches!(*value, BACKGROUND | FOREGROUND | 0x1234)));
    assert!(storage[GUARD..GUARD + OVERLAY_WIDTH]
        .iter()
        .all(|value| *value == BACKGROUND));
}

#[test]
fn first_frame_only_starts_the_period() {
    let mut overlay = DebugOverlay::default();
    overlay.begin_frame(7);
    assert_eq!(overlay.period_started_us, Some(7));
    assert_eq!(overlay.frame_intervals, 0);
    assert_eq!(overlay.fps, 0);
}

#[test]
fn rate_rounds_to_nearest_and_caps_at_999() {
    // 3 intervals over 0.6 s is exactly 5 frames per second.
    let mut overlay = DebugOverlay::default();
    overlay.begin_frame(0);
    overlay.begin_frame(200_000);
    overlay.begin_frame(400_000);
    overlay.begin_frame(600_000);
    assert_eq!(overlay.fps, 5);
    assert_eq!(overlay.period_started_us, Some(600_000));
    assert_eq!(overlay.frame_intervals, 0);
    // 1000 intervals in half a second would be 2000 per second.
    let mut fast = DebugOverlay::default();
    fast.begin_frame(0);
    for frame in 1..=1000u64 {
        fast.begin_frame(frame * 500);
    }
    assert_eq!(fast.fps, 999);
}

#[test]
fn digits_of_the_rate_are_drawn_without_leading_zeros() {
    const STRIDE: usize = 56;
    let mut one_digit = vec![0x1234_u16; STRIDE * 14];
    DebugOverlay { fps: 7, ..DebugOverlay::default() }.draw_band(&mut one_digit, STRIDE, 0, 14);
    // Nothing is lit right of the single digit.
    for row in 0..14 {
        for column in 36..STRIDE {
            assert_eq!(one_digit[row * STRIDE + column], BACKGROUND);
        }
    }
    // The top row of a 7 is fully lit at screen rows 2 and 3.
    for column in 30..36 {
        assert_eq!(one_digit[2 * STRIDE + column], FOREGROUND);
        assert_eq!(one_digit[3 * STRIDE + column], FOREGROUND);
    }
    let mut three_digits = vec![0x1234_u16; STRIDE * 14];
    DebugOverlay { fps: 100, ..DebugOverlay::default() }.draw_band(&mut three_digits, STRIDE, 0, 14);
    // A 1 lights its middle column in its top row; zeros light their left column.
    assert_eq!(three_digits[2 * STRIDE + 32], FOREGROUND);
    assert_eq!(three_digits[2 * STRIDE + 38], FOREGROUND);
    assert_eq!(three_digits[2 * STRIDE + 46], FOREGROUND);
}

#[test]
fn bands_outside_the_readout_are_untouched() {
    let overlay = DebugOverlay { fps: 42, ..DebugOverlay::default() };
    let mut below = vec![0x1234_u16; 64 * 4];
    overlay.draw_band(&mut below, 64, 14, 4);
    assert!(below.iter().all(|value| *value == 0x1234));
    let mut narrow = vec![0x1234_u16; 40 * 4];
    overlay.draw_band(&mut narrow, 40, 0, 4);
    assert!(narrow.iter().all(|value| *value == 0x1234));
    let mut short = vec![0x1234_u16; 64 * 3];
    overlay.draw_band(&mut short, 64, 0, 4);
    assert!(short.iter().all(|value| *value == 0x1234));
    // A band starting at row 10 covers screen rows 10..14 only.
    let mut lower = vec![0x1234_u16; 64 * 8];
    overlay.draw_band(&mut lower, 64, 10, 8);
    assert!(lower[64 * 4..].iter().all(|value| *value == 0x1234));
    assert!(lower[..OVERLAY_WIDTH].iter().all(|v| *v == BACKGROUND || *v == FOREGROUND));
}
