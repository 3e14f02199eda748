use mirage::color::Rgb;
use mirage::solid::{generate, try_generate};

#[test]
fn solid_picture_shows_the_colour_everywhere() {
    let color = Rgb::new(12, 200, 77);
    let image = generate(6, 4, color);
    assert_eq!(image.width(), 6);
    assert_eq!(image.height(), 4);
    for y in 0..4 {
        for x in 0..6 {
            assert_eq!(image.get_pixel(x, y), Some(color));
        }
    }
    assert_eq!(image.get_pixel(6, 0), None);
    assert_eq!(image.get_pixel(0, 4), None);
}

#[test]
fn solid_picture_repeats_the_three_channels() {
    let raw = generate(3, 2, Rgb::new(1, 2, 3)).into_raw();
    assert_eq!(raw, vec![1, 2, 3, 1, 2, 3, 1, 2, 3, 1, 2, 3, 1, 2, 3, 1, 2, 3]);
}

#[test]
fn solid_picture_without_pixels_is_empty() {
    assert!(generate(0, 0, Rgb::new(9, 9, 9)).into_raw().is_empty());
    assert!(generate(5, 0, Rgb::new(9, 9, 9)).into_raw().is_empty());
    assert!(generate(0, 5, Rgb::new(9, 9, 9)).into_raw().is_empty());
}

#[test]
fn solid_picture_of_standard_size_is_dense() {
    let color = Rgb::new(255, 0, 128);
    let image = generate(800, 800, color);
    assert_eq!(image.get_pixel(0, 0), Some(color));
    assert_eq!(image.get_pixel(799, 799), Some(color));
    assert_eq!(image.get_pixel(400, 123), Some(color));
    let raw = image.into_raw();
    assert_eq!(raw.len(), 3 * 800 * 800);
    assert!(raw.chunks(3).all(|pixel| pixel == [255, 0, 128]));
}

#[test]
fn solid_pictures_of_equal_inputs_are_equal() {
    let first = generate(17, 9, Rgb::new(3, 2, 1)).into_raw();
    let second = generate(17, 9, Rgb::new(3, 2, 1)).into_raw();
    assert_eq!(first, second);
}

#[test]
fn checked_solid_picture_is_the_same_picture() {
    let color = Rgb::new(4, 5, 6);
    let checked = try_generate(7, 3, color).expect("the dimensions fit");
    assert_eq!(checked.width(), 7);
    assert_eq!(checked.height(), 3);
    assert_eq!(checked.into_raw(), generate(7, 3, color).into_raw());
}

#[test]
fn checked_solid_picture_refuses_dimensions_that_do_not_fit() {
    assert!(try_generate(u32::MAX, u32::MAX, Rgb::new(1, 2, 3)).is_none());
    assert!(try_generate(0, 0, Rgb::new(1, 2, 3)).is_some());
}
