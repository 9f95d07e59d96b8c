use rustyz::images::compress_picture;
use rustyz::wow::cropped_portrait;

fn png_bytes(picture: &image::RgbaImage) -> Vec<u8> {
    let mut out = Vec::new();
    image::ImageEncoder::write_image(
        image::codecs::png::PngEncoder::new(&mut out),
        picture,
        picture.width(),
        picture.height(),
        image::ExtendedColorType::Rgba8,
    )
    .unwrap();
    out
}

fn solid(width: u32, height: u32) -> image::RgbaImage {
    image::RgbaImage::from_pixel(width, height, image::Rgba([200, 30, 30, 255]))
}

#[test]
fn large_pictures_are_shrunk_to_fit() {
    let bytes = png_bytes(&solid(800, 200));
    let jpeg = compress_picture(&bytes, Some("image/png")).unwrap();
    let back = image::load_from_memory_with_format(&jpeg, image::ImageFormat::Jpeg).unwrap();
    assert_eq!((back.width(), back.height()), (400, 100));
}

#[test]
fn small_pictures_keep_their_size() {
    let bytes = png_bytes(&solid(40, 30));
    let jpeg = compress_picture(&bytes, None).unwrap();
    assert_eq!(&jpeg[..2], &[0xff, 0xd8]);
    let back = image::load_from_memory(&jpeg).unwrap();
    assert_eq!((back.width(), back.height()), (40, 30));
}

#[test]
fn undecodable_pictures_give_the_error() {
    assert!(compress_picture(b"not a picture", Some("image/png")).is_err());
    assert!(compress_picture(b"not a picture", None).is_err());
    assert!(cropped_portrait(b"not a picture").is_err());
}

#[test]
fn portraits_are_cropped_to_what_shows() {
    let mut picture = image::RgbaImage::from_pixel(10, 8, image::Rgba([0, 0, 0, 0]));
    picture.put_pixel(2, 3, image::Rgba([1, 2, 3, 255]));
    picture.put_pixel(6, 5, image::Rgba([4, 5, 6, 9]));
    let cropped = cropped_portrait(&png_bytes(&picture)).unwrap();
    let back = image::load_from_memory_with_format(&cropped, image::ImageFormat::Png).unwrap().into_rgba8();
    assert_eq!(back.dimensions(), (5, 3));
    assert_eq!(back.get_pixel(0, 0), &image::Rgba([1, 2, 3, 255]));
    assert_eq!(back.get_pixel(4, 2), &image::Rgba([4, 5, 6, 9]));
    assert_eq!(back.get_pixel(1, 1)[3], 0);
    // a picture with nothing showing is kept whole
    let clear = image::RgbaImage::from_pixel(3, 2, image::Rgba([0, 0, 0, 0]));
    let kept = cropped_portrait(&png_bytes(&clear)).unwrap();
    let back = image::load_from_memory(&kept).unwrap();
    assert_eq!((back.width(), back.height()), (3, 2));
}
