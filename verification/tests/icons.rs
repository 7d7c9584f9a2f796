use anxwritter::custom_icons::{decode_data_uri, to_bmp};
use std::io::Cursor;

fn png_of(img: &image::RgbaImage) -> Vec<u8> {
    let mut buf = Cursor::new(Vec::new());
    img.write_to(&mut buf, image::ImageFormat::Png).unwrap();
    buf.into_inner()
}

#[test]
fn data_uri_payload_is_base64_decoded() {
    let r = decode_data_uri("data:image/png;base64,QUJD");
    assert_eq!(r, Some(Ok(b"ABC".to_vec())));
}

#[test]
fn data_uri_payload_is_trimmed() {
    let r = decode_data_uri("data:text/plain;base64,  QUJD \n");
    assert_eq!(r, Some(Ok(b"ABC".to_vec())));
}

#[test]
fn data_uri_without_comma_is_malformed() {
    let r = decode_data_uri("data:image/png;base64");
    assert_eq!(r, Some(Err("malformed data: URI".to_string())));
}

#[test]
fn data_uri_with_bad_base64_is_an_error() {
    let r = decode_data_uri("data:image/png;base64,@@@");
    assert!(matches!(r, Some(Err(_))));
}

#[test]
fn a_path_is_no_data_uri() {
    assert_eq!(decode_data_uri("icons/person.png"), None);
}

#[test]
fn bmp_input_passes_through() {
    let bytes = b"BM\x01\x02\x03".to_vec();
    assert_eq!(to_bmp(&bytes), Ok(bytes.clone()));
}

#[test]
fn undecodable_input_is_an_error() {
    assert!(to_bmp(&b"not an image".to_vec()).is_err());
}

#[test]
fn small_image_is_keyed_and_squared() {
    // 2 wide, 1 high: an opaque red pixel and a transparent one.
    let mut img = image::RgbaImage::new(2, 1);
    img.put_pixel(0, 0, image::Rgba([255, 0, 0, 255]));
    img.put_pixel(1, 0, image::Rgba([0, 255, 0, 10]));
    let bmp = to_bmp(&png_of(&img)).unwrap();
    assert_eq!(&bmp[..2], b"BM");
    let out = image::load_from_memory(&bmp).unwrap().to_rgb8();
    assert_eq!(out.dimensions(), (2, 2));
    // The 2x1 image sits in row 0 ((2 - 1) / 2 == 0); row 1 is magenta.
    assert_eq!(out.get_pixel(0, 0).0, [255, 0, 0]);
    assert_eq!(out.get_pixel(1, 0).0, [255, 0, 255]);
    assert_eq!(out.get_pixel(0, 1).0, [255, 0, 255]);
    assert_eq!(out.get_pixel(1, 1).0, [255, 0, 255]);
}

#[test]
fn large_image_is_scaled_down_to_max_size() {
    let img = image::RgbaImage::from_pixel(256, 64, image::Rgba([0, 0, 200, 255]));
    let bmp = to_bmp(&png_of(&img)).unwrap();
    let out = image::load_from_memory(&bmp).unwrap().to_rgb8();
    // 256x64 scales to 128x32, centred on a 128x128 square.
    assert_eq!(out.dimensions(), (128, 128));
    let blue = |p: [u8; 3]| p[0] <= 5 && p[1] <= 5 && p[2] >= 195;
    // 128x32 centred vertically: rows 48..80 hold the image.
    assert_eq!(out.get_pixel(0, 0).0, [255, 0, 255]);
    assert_eq!(out.get_pixel(64, 47).0, [255, 0, 255]);
    assert!(blue(out.get_pixel(64, 48).0));
    assert!(blue(out.get_pixel(0, 64).0));
    assert!(blue(out.get_pixel(127, 79).0));
    assert_eq!(out.get_pixel(64, 80).0, [255, 0, 255]);
}
