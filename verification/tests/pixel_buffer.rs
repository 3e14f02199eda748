use mirage::buffer::PixelBuffer;
use mirage::color::Rgb;

#[test]
fn new_buffer_has_the_requested_dimensions() {
    let buffer = PixelBuffer::new(7, 5);
    assert_eq!(buffer.width(), 7);
    assert_eq!(buffer.height(), 5);
}

#[test]
fn new_buffer_is_black_everywhere() {
    let buffer = PixelBuffer::new(4, 3);
    for y in 0..3 {
        for x in 0..4 {
            assert_eq!(buffer.get_pixel(x, y), Some(Rgb { red: 0, green: 0, blue: 0 }));
        }
    }
    assert_eq!(buffer.into_raw(), vec![0u8; 36]);
}

#[test]
fn new_buffer_without_pixels_has_no_samples() {
    let buffer = PixelBuffer::new(0, 0);
    assert_eq!(buffer.width(), 0);
    assert_eq!(buffer.height(), 0);
    assert_eq!(buffer.get_pixel(0, 0), None);
    assert!(buffer.into_raw().is_empty());
}

#[test]
fn buffer_with_one_zero_dimension_keeps_the_other() {
    let wide = PixelBuffer::new(9, 0);
    assert_eq!(wide.width(), 9);
    assert_eq!(wide.height(), 0);
    assert!(wide.into_raw().is_empty());
    let tall = PixelBuffer::new(0, 9);
    assert_eq!(tall.width(), 0);
    assert_eq!(tall.height(), 9);
    assert!(tall.into_raw().is_empty());
}

#[test]
fn get_pixel_outside_the_grid_is_none() {
    let buffer = PixelBuffer::new(4, 3);
    assert_eq!(buffer.get_pixel(4, 0), None);
    assert_eq!(buffer.get_pixel(0, 3), None);
    assert_eq!(buffer.get_pixel(4, 3), None);
    assert_eq!(buffer.get_pixel(u32::MAX, u32::MAX), None);
    assert!(buffer.get_pixel(3, 2).is_some());
}

#[test]
fn put_pixel_is_read_back() {
    let mut buffer = PixelBuffer::new(4, 3);
    let color = Rgb::new(10, 20, 30);
    buffer.put_pixel(2, 1, color);
    assert_eq!(buffer.get_pixel(2, 1), Some(color));
}

#[test]
fn put_pixel_leaves_the_other_pixels_alone() {
    let mut buffer = PixelBuffer::new(4, 3);
    buffer.put_pixel(0, 0, Rgb::new(1, 2, 3));
    buffer.put_pixel(3, 2, Rgb::new(4, 5, 6));
    buffer.put_pixel(2, 1, Rgb::new(7, 8, 9));
    for y in 0..3 {
        for x in 0..4 {
            let expected = match (x, y) {
                (0, 0) => Rgb::new(1, 2, 3),
                (3, 2) => Rgb::new(4, 5, 6),
                (2, 1) => Rgb::new(7, 8, 9),
                _ => Rgb::new(0, 0, 0),
            };
            assert_eq!(buffer.get_pixel(x, y), Some(expected));
        }
    }
}

#[test]
fn put_pixel_overwrites_an_earlier_colour() {
    let mut buffer = PixelBuffer::new(2, 2);
    buffer.put_pixel(1, 1, Rgb::new(1, 1, 1));
    buffer.put_pixel(1, 1, Rgb::new(200, 100, 50));
    assert_eq!(buffer.get_pixel(1, 1), Some(Rgb::new(200, 100, 50)));
    assert_eq!(buffer.width(), 2);
    assert_eq!(buffer.height(), 2);
}

#[test]
fn samples_run_row_by_row_in_red_green_blue_order() {
    let mut buffer = PixelBuffer::new(3, 2);
    buffer.put_pixel(1, 0, Rgb::new(11, 12, 13));
    buffer.put_pixel(0, 1, Rgb::new(21, 22, 23));
    buffer.put_pixel(2, 1, Rgb::new(31, 32, 33));
    let expected: Vec<u8> = vec![
        0, 0, 0, 11, 12, 13, 0, 0, 0, //
        21, 22, 23, 0, 0, 0, 31, 32, 33,
    ];
    assert_eq!(buffer.into_raw(), expected);
}

#[test]
fn samples_rebuild_the_same_picture_in_the_image_crate() {
    let mut buffer = PixelBuffer::new(5, 4);
    for y in 0..4u32 {
        for x in 0..5u32 {
            buffer.put_pixel(x, y, Rgb::new(x as u8, y as u8, (10 * y + x) as u8));
        }
    }
    let rebuilt: image::RgbImage = image::ImageBuffer::from_raw(5, 4, buffer.into_raw())
        .expect("three samples for each pixel");
    for y in 0..4u32 {
        for x in 0..5u32 {
            assert_eq!(rebuilt.get_pixel(x, y).data, [x as u8, y as u8, (10 * y + x) as u8]);
        }
    }
}

#[test]
fn rgb_new_keeps_the_channel_order() {
    let color = Rgb::new(1, 2, 3);
    assert_eq!(color.red, 1);
    assert_eq!(color.green, 2);
    assert_eq!(color.blue, 3);
    assert_eq!(color, Rgb { red: 1, green: 2, blue: 3 });
    assert_ne!(color, Rgb { red: 3, green: 2, blue: 1 });
}

/// The limits that `fits` stands for, computed in wide arithmetic.
fn within_the_limits(width: u32, height: u32) -> bool {
    let row = 3 * width as u128;
    row <= usize::MAX as u128 && row * height as u128 <= isize::MAX as u128
}

#[test]
fn fits_accepts_ordinary_dimensions() {
    assert!(PixelBuffer::fits(0, 0));
    assert!(PixelBuffer::fits(1, 1));
    assert!(PixelBuffer::fits(800, 800));
    assert!(PixelBuffer::fits(0, u32::MAX));
}

#[test]
fn fits_refuses_a_sample_count_beyond_a_vector() {
    assert!(!PixelBuffer::fits(u32::MAX, u32::MAX));
    assert!(!PixelBuffer::fits(u32::MAX, 1 << 31));
}

#[test]
fn fits_agrees_with_the_limits_of_the_machine() {
    let edges = [0u32, 1, 2, 800, 65_535, 65_536, 1_431_655_765, 1_431_655_766, 1 << 31, u32::MAX];
    for &width in edges.iter() {
        for &height in edges.iter() {
            assert_eq!(PixelBuffer::fits(width, height), within_the_limits(width, height));
        }
    }
}

#[test]
fn wide_buffer_without_rows_is_empty_where_it_fits() {
    let width = 1_431_655_766;
    if PixelBuffer::fits(width, 0) {
        let buffer = PixelBuffer::new(width, 0);
        assert_eq!(buffer.width(), width);
        assert_eq!(buffer.height(), 0);
        assert!(buffer.into_raw().is_empty());
    } else {
        assert!(3 * width as u128 > usize::MAX as u128);
    }
}
