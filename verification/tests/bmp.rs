use raytracer::image::Image;
use raytracer::image::Pixel;

#[test]
fn solid_20x20_has_exact_size_magic_and_dimensions() {
    let img = Image::solid_color(20, 20, Pixel { r: 90, g: 120, b: 150, a: 255 });
    let file = img.write_bmp();
    assert_eq!(file.len(), 14 + 108 + 20 * 20 * 4);
    assert_eq!(file[0], 0x42);
    assert_eq!(file[1], 0x4D);
    assert_eq!(file[18..22].to_vec(), vec![20, 0, 0, 0]);
    assert_eq!(file[22..26].to_vec(), vec![20, 0, 0, 0]);
}

#[test]
fn header_fields_of_a_one_pixel_file() {
    let img = Image::solid_color(1, 1, Pixel { r: 0, g: 0, b: 0, a: 0 });
    let file = img.write_bmp();
    assert_eq!(file.len(), 126);
    // total file size, little endian
    assert_eq!(file[2..6].to_vec(), vec![126, 0, 0, 0]);
    // reserved words, then the offset of the pixel data: 122
    assert_eq!(file[6..10].to_vec(), vec![0, 0, 0, 0]);
    assert_eq!(file[10..14].to_vec(), vec![0x7A, 0, 0, 0]);
    // info header size: 108
    assert_eq!(file[14..18].to_vec(), vec![0x6C, 0, 0, 0]);
    // one plane, 32 bits per pixel, bit-field compression
    assert_eq!(file[26..28].to_vec(), vec![1, 0]);
    assert_eq!(file[28..30].to_vec(), vec![32, 0]);
    assert_eq!(file[30..34].to_vec(), vec![3, 0, 0, 0]);
    // channel bit masks: red, green, blue, alpha
    assert_eq!(file[54..58].to_vec(), vec![0, 0, 0xFF, 0]);
    assert_eq!(file[58..62].to_vec(), vec![0, 0xFF, 0, 0]);
    assert_eq!(file[62..66].to_vec(), vec![0xFF, 0, 0, 0]);
    assert_eq!(file[66..70].to_vec(), vec![0, 0, 0, 0xFF]);
    // the "Win " color-space tag, stored little endian
    assert_eq!(file[70..74].to_vec(), vec![0x20, 0x6E, 0x69, 0x57]);
    // endpoints and gamma stay zero
    for i in 74..122 {
        assert_eq!(file[i], 0);
    }
}

#[test]
fn rows_come_bottom_to_top_and_pixels_as_bgra() {
    let mut img = Image::solid_color(2, 2, Pixel { r: 0, g: 0, b: 0, a: 0 });
    img.set_pixel(0, 0, Pixel { r: 1, g: 2, b: 3, a: 4 });
    img.set_pixel(1, 0, Pixel { r: 5, g: 6, b: 7, a: 8 });
    img.set_pixel(0, 1, Pixel { r: 9, g: 10, b: 11, a: 12 });
    img.set_pixel(1, 1, Pixel { r: 13, g: 14, b: 15, a: 16 });
    let file = img.write_bmp();
    // the bottom image row (y = 1) is stored first, each pixel as B,G,R,A
    assert_eq!(file[122..126].to_vec(), vec![11, 10, 9, 12]);
    assert_eq!(file[126..130].to_vec(), vec![15, 14, 13, 16]);
    assert_eq!(file[130..134].to_vec(), vec![3, 2, 1, 4]);
    assert_eq!(file[134..138].to_vec(), vec![7, 6, 5, 8]);
}

#[test]
fn empty_images_serialize_to_bare_headers() {
    let none = Pixel { r: 0, g: 0, b: 0, a: 0 };
    assert_eq!(Image::solid_color(0, 0, none).write_bmp().len(), 122);
    assert_eq!(Image::solid_color(5, 0, none).write_bmp().len(), 122);
    assert_eq!(Image::solid_color(0, 5, none).write_bmp().len(), 122);
}

#[test]
fn wide_dimensions_reach_the_high_bytes_of_the_size_fields() {
    let img = Image::solid_color(300, 2, Pixel { r: 7, g: 7, b: 7, a: 7 });
    let file = img.write_bmp();
    // width 300 = 0x012C
    assert_eq!(file[18..22].to_vec(), vec![0x2C, 0x01, 0, 0]);
    assert_eq!(file[22..26].to_vec(), vec![2, 0, 0, 0]);
    // file size 122 + 4 * 600 = 2522 = 0x09DA
    assert_eq!(file[2..6].to_vec(), vec![0xDA, 0x09, 0, 0]);
}
