use deskkin::background::PieBackground;
use deskkin::scratch::Scratch;

#[test]
fn background_repeats_four_colours_from_the_first_pixel() {
    let mut pixels = vec![0u16; 21];
    PieBackground.fill(&mut pixels, [1, 2, 3, 4]);
    for (i, pixel) in pixels.iter().enumerate() {
        assert_eq!(*pixel, [1, 2, 3, 4][i % 4]);
    }
    let mut empty: Vec<u16> = Vec::new();
    PieBackground.fill(&mut empty, [9, 9, 9, 9]);
    assert!(empty.is_empty());
}

#[test]
fn scratch_starts_with_defaults_and_can_be_written() {
    let mut scratch: Scratch<u32> = Scratch::new(5);
    assert_eq!(scratch.as_slice(), &[0, 0, 0, 0, 0]);
    scratch.as_mut_slice()[2] = 7;
    assert_eq!(scratch.as_slice(), &[0, 0, 7, 0, 0]);
}
