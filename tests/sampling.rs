use rust_rendering::sampling::{PixelOffset, SubPixelSampling};

fn as_floats(offsets: &[PixelOffset]) -> Vec<(f32, f32)> {
    offsets
        .iter()
        .map(|o| (o.x as f32 / o.denominator as f32, o.y as f32 / o.denominator as f32))
        .collect()
}

#[test]
fn pixel_offsets_centre() {
    let actual = SubPixelSampling::Centre.pixel_offsets();

    assert_eq!(as_floats(&actual), vec![(0.5, 0.5)]);
}

#[test]
fn pixel_offsets_square_two() {
    let actual = SubPixelSampling::Square(2).pixel_offsets();

    assert_eq!(as_floats(&actual), vec![(0.25, 0.25), (0.25, 0.75), (0.75, 0.25), (0.75, 0.75)]);
}

#[test]
fn square_one_matches_centre() {
    assert_eq!(SubPixelSampling::Square(1).pixel_offsets(), SubPixelSampling::Centre.pixel_offsets());
}

#[test]
fn square_three_is_symmetric_grid_inside_pixel() {
    let offsets = SubPixelSampling::Square(3).pixel_offsets();

    assert_eq!(offsets.len(), 9);
    assert_eq!(offsets[0], PixelOffset { x: 1, y: 1, denominator: 6 });
    assert_eq!(offsets[5], PixelOffset { x: 3, y: 5, denominator: 6 });
    for o in &offsets {
        assert!(0 < o.x && o.x < o.denominator);
        assert!(0 < o.y && o.y < o.denominator);
        let mirror = PixelOffset { x: o.denominator - o.x, y: o.denominator - o.y, denominator: o.denominator };
        assert!(offsets.contains(&mirror));
    }
}

#[test]
fn square_zero_has_no_offsets() {
    assert!(SubPixelSampling::Square(0).pixel_offsets().is_empty());
}

#[test]
fn largest_square_has_all_offsets() {
    let offsets = SubPixelSampling::Square(255).pixel_offsets();

    assert_eq!(offsets.len(), 255 * 255);
    assert_eq!(offsets[255 * 255 - 1], PixelOffset { x: 509, y: 509, denominator: 510 });
}
