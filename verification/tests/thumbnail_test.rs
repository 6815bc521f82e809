//! Thumbnails of images.

use nixclip_core::error::NixClipError;
use nixclip_core::pipeline::thumbnail::{
    decode_and_thumbnail, decode_scaled, encode_thumbnail, THUMBNAIL_SIZE,
};

fn red_png(width: u32, height: u32) -> Vec<u8> {
    let img = image::RgbaImage::from_pixel(width, height, image::Rgba([255, 0, 0, 255]));
    let mut bytes = Vec::new();
    image::DynamicImage::ImageRgba8(img)
        .write_to(&mut std::io::Cursor::new(&mut bytes), image::ImageFormat::Png)
        .expect("encode");
    bytes
}

#[test]
fn images_are_scaled_to_the_size_of_a_thumbnail() {
    let (rgba, dimensions) = decode_scaled(&red_png(200, 30), true).expect("scaled");
    assert_eq!(dimensions, (200, 30));
    assert_eq!(rgba.len(), 4 * 64 * 64);
    for pixel in rgba.chunks(4) {
        assert!(pixel[0] > 250 && pixel[1] < 5 && pixel[2] < 5 && pixel[3] > 250);
    }
}

#[test]
fn an_image_of_the_size_of_a_thumbnail_keeps_its_pixels() {
    let (rgba, _) = decode_scaled(&red_png(64, 64), true).expect("scaled");
    assert_eq!(rgba, [255u8, 0, 0, 255].repeat(64 * 64));
}

#[test]
fn thumbnails_are_encoded_pixel_by_pixel() {
    let rgba: Vec<u8> = (0..4 * 64 * 64).map(|i| (i % 251) as u8).collect();
    let png = encode_thumbnail(&rgba).expect("encoded");
    let read = image::load_from_memory_with_format(&png, image::ImageFormat::Png).expect("read");
    assert_eq!((read.width(), read.height()), (THUMBNAIL_SIZE, THUMBNAIL_SIZE));
    assert_eq!(read.to_rgba8().into_raw(), rgba);
}

#[test]
fn a_thumbnail_is_the_encoding_of_the_scaled_image() {
    let data = red_png(10, 20);
    let (thumb, dimensions) = decode_and_thumbnail(&data, true).expect("thumbnail");
    assert_eq!(dimensions, (10, 20));
    let (rgba, _) = decode_scaled(&data, true).expect("scaled");
    assert_eq!(thumb, encode_thumbnail(&rgba).expect("encoded"));
}

#[test]
fn data_that_is_no_image_has_no_thumbnail() {
    for png in [true, false] {
        match decode_and_thumbnail(b"no image", png) {
            Err(NixClipError::Image(m)) => assert!(m.starts_with("failed to decode image: ")),
            other => panic!("expected Image, got {other:?}"),
        }
    }
    assert!(decode_scaled(&red_png(1, 1), false).is_err());
}
