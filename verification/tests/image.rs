use raytracer::image::Image;
use raytracer::image::Pixel;

#[test]
fn solid_color_fills_every_pixel() {
    let c = Pixel { r: 10, g: 20, b: 30, a: 255 };
    let img = Image::solid_color(3, 2, c);
    assert_eq!(img.width, 3);
    assert_eq!(img.height, 2);
    for y in 0..2 {
        for x in 0..3 {
            assert_eq!(img.get_pixel(x, y), c);
        }
    }
}

#[test]
fn set_pixel_changes_only_its_cell() {
    let background = Pixel { r: 0, g: 0, b: 0, a: 255 };
    let mark = Pixel { r: 200, g: 100, b: 50, a: 255 };
    let mut img = Image::solid_color(4, 3, background);
    img.set_pixel(2, 1, mark);
    for y in 0..3 {
        for x in 0..4 {
            if x == 2 && y == 1 {
                assert_eq!(img.get_pixel(x, y), mark);
            } else {
                assert_eq!(img.get_pixel(x, y), background);
            }
        }
    }
}

#[test]
fn pixels_are_stored_row_major() {
    let mut img = Image::solid_color(2, 2, Pixel { r: 0, g: 0, b: 0, a: 0 });
    img.set_pixel(1, 0, Pixel { r: 1, g: 0, b: 0, a: 0 });
    img.set_pixel(0, 1, Pixel { r: 2, g: 0, b: 0, a: 0 });
    assert_eq!(img.pixels[1].r, 1);
    assert_eq!(img.pixels[2].r, 2);
}
