use rust_rendering::{pixel_ranges, PixelRange, Rgb, RgbImage};
use rust_rendering::rgb_image::pixel_position;

#[test]
fn colour_new() {
    let rgb = Rgb::new(0x12, 0x78, 0xde);

    assert_eq!(rgb.r, 0x12);
    assert_eq!(rgb.g, 0x78);
    assert_eq!(rgb.b, 0xde);
}

#[test]
fn colour_from_hex() {
    let rgb = Rgb::from_hex(0x1278de);

    assert_eq!(rgb, Rgb::new(0x12, 0x78, 0xde));
    assert_eq!(rgb.r, 0x12);
    assert_eq!(rgb.g, 0x78);
    assert_eq!(rgb.b, 0xde);
}

#[test]
fn colour_fmt() {
    let rgb = Rgb::new(0x12, 0x78, 0xde);

    assert_eq!(rgb.to_string(), "0x1278de");
}

#[test]
fn colour_to_u8_array() {
    let rgb = Rgb::new(0x12, 0x78, 0xde);

    assert_eq!(rgb.to_u8_array(), [0x12, 0x78, 0xde]);
}

#[test]
fn rgb_new() {
    let rgb = Rgb::new(0x12, 0x78, 0xde);

    assert_eq!(rgb.r, 0x12);
    assert_eq!(rgb.g, 0x78);
    assert_eq!(rgb.b, 0xde);
}

#[test]
fn rgb_from_hex() {
    let rgb = Rgb::from_hex(0x1278de);

    assert_eq!(rgb, Rgb::new(0x12, 0x78, 0xde));
    assert_eq!(rgb.r, 0x12);
    assert_eq!(rgb.g, 0x78);
    assert_eq!(rgb.b, 0xde);
}

#[test]
fn rgb_fmt() {
    let rgb = Rgb::new(0x12, 0x78, 0xde);

    assert_eq!(rgb.to_string(), "0x1278de");
}

#[test]
fn rgb_to_u8_array() {
    let rgb = Rgb::new(0x12, 0x78, 0xde);

    assert_eq!(rgb.to_u8_array(), [0x12, 0x78, 0xde]);
}

#[test]
fn from_hex_ignores_high_bits() {
    assert_eq!(Rgb::from_hex(0xab1278de), Rgb::new(0x12, 0x78, 0xde));
    assert_eq!(Rgb::from_hex(0xffffffff), Rgb::new(0xff, 0xff, 0xff));
    assert_eq!(Rgb::from_hex(0), Rgb::new(0, 0, 0));
}

#[test]
fn fmt_pads_each_channel_to_two_digits() {
    assert_eq!(Rgb::new(0, 0x0a, 0xff).to_string(), "0x000aff");
    assert_eq!(Rgb::new(0, 0, 0).to_string(), "0x000000");
}

#[test]
fn new_image_is_black() {
    let image = RgbImage::new(3, 2);

    assert_eq!(image.width(), 3);
    assert_eq!(image.height(), 2);
    for y in 0..2 {
        for x in 0..3 {
            assert_eq!(image.get_pixel(x, y), Rgb::new(0, 0, 0));
        }
    }
    assert_eq!(image.to_rgb_bytes(), vec![0u8; 18]);
}

#[test]
fn set_pixel_writes_one_row_major_slot() {
    let mut image = RgbImage::new(3, 2);

    image.set_pixel(2, 1, Rgb::new(1, 2, 3));

    assert_eq!(image.get_pixel(2, 1), Rgb::new(1, 2, 3));
    assert_eq!(image.get_pixel(1, 1), Rgb::new(0, 0, 0));
    let bytes = image.to_rgb_bytes();
    assert_eq!(bytes.len(), 18);
    assert_eq!(&bytes[15..18], &[1, 2, 3]);
    assert!(bytes[..15].iter().all(|b| *b == 0));
}

#[test]
fn from_rgb_pixels_keeps_row_order() {
    let pixels = vec![
        Rgb::new(1, 1, 1),
        Rgb::new(2, 2, 2),
        Rgb::new(3, 3, 3),
        Rgb::new(4, 4, 4),
        Rgb::new(5, 5, 5),
        Rgb::new(6, 6, 6),
    ];
    let image = RgbImage::from_rgb_pixels(2, 3, pixels);

    assert_eq!(image.get_pixel(1, 0), Rgb::new(2, 2, 2));
    assert_eq!(image.get_pixel(0, 1), Rgb::new(3, 3, 3));
    assert_eq!(image.get_pixel(1, 2), Rgb::new(6, 6, 6));
    assert_eq!(
        image.to_rgb_bytes(),
        vec![1, 1, 1, 2, 2, 2, 3, 3, 3, 4, 4, 4, 5, 5, 5, 6, 6, 6]
    );
}

#[test]
fn pixel_position_is_row_major() {
    assert_eq!(pixel_position(0, 4), (0, 0));
    assert_eq!(pixel_position(3, 4), (3, 0));
    assert_eq!(pixel_position(4, 4), (0, 1));
    assert_eq!(pixel_position(11, 4), (3, 2));
    assert_eq!(pixel_position(7, 1), (0, 7));
}

#[test]
fn pixel_ranges_cover_image_once() {
    assert_eq!(
        pixel_ranges(10, 4),
        vec![PixelRange { start: 0, end: 4 }, PixelRange { start: 4, end: 8 }, PixelRange { start: 8, end: 10 }]
    );
    assert_eq!(pixel_ranges(8, 4), vec![PixelRange { start: 0, end: 4 }, PixelRange { start: 4, end: 8 }]);
    assert!(pixel_ranges(0, 3).is_empty());
    assert_eq!(pixel_ranges(5, 100), vec![PixelRange { start: 0, end: 5 }]);
}
