use bmp_editor::color::Rgba;
use bmp_editor::image::{create_image, get_pixel, image_size};

#[test]
fn created_image_has_the_requested_size() {
    let b = create_image(3, 2);
    assert_eq!(image_size(&b), (2, 3));
    let b = create_image(1, 1);
    assert_eq!(image_size(&b), (1, 1));
}

#[test]
fn created_image_is_all_white() {
    let b = create_image(2, 2);
    let white = Rgba { r: 255, g: 255, b: 255, a: 255 };
    for y in 0..2 {
        for x in 0..2 {
            assert_eq!(get_pixel(&b, x, y), Some(white));
        }
    }
}

#[test]
fn viewport_sized_image_maps_one_to_one() {
    // A 650x650 image fills the 650-unit viewport at scale 1: the last
    // pointer offset hits the last pixel, one further misses.
    let b = create_image(650, 650);
    assert_eq!(image_size(&b), (650, 650));
    assert_eq!(bmp_editor::mapper::hit_test(650, 650, 650, 649, 649), Some((649, 649)));
    assert_eq!(bmp_editor::mapper::hit_test(650, 650, 650, 650, 649), None);
    assert_eq!(get_pixel(&b, 649, 649), Some(Rgba { r: 255, g: 255, b: 255, a: 255 }));
    assert_eq!(get_pixel(&b, 650, 0), None);
}

#[test]
fn reading_outside_the_image_gives_none() {
    let b = create_image(2, 2);
    assert_eq!(get_pixel(&b, 2, 0), None);
    assert_eq!(get_pixel(&b, 0, 2), None);
    assert_eq!(get_pixel(&b, 2, 2), None);
    assert!(get_pixel(&b, 1, 1).is_some());
}
