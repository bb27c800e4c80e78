use std::io::Cursor;

use rust_chat::message::{FileProbe, Message, MessageError};

fn png_bytes() -> Vec<u8> {
    let img = image::RgbImage::from_pixel(2, 3, image::Rgb([10, 20, 30]));
    let mut buf = Vec::new();
    image::DynamicImage::ImageRgb8(img)
        .write_to(&mut Cursor::new(&mut buf), image::ImageOutputFormat::Png)
        .unwrap();
    buf
}

#[test]
fn image_becomes_png_photo() {
    let r = Message::from_image("pics/cat.png", FileProbe::Contents(png_bytes())).unwrap();
    let data = match r {
        Message::Photo { data } => data,
        other => panic!("unexpected {:?}", other),
    };
    assert_eq!(&data[1..4], b"PNG");
    let back = image::load_from_memory(&data).unwrap();
    assert_eq!((back.width(), back.height()), (2, 3));
}

#[test]
fn image_with_unknown_extension_is_unsupported() {
    let r = Message::from_image("cat.txt", FileProbe::Contents(png_bytes()));
    assert_eq!(r, Err(MessageError::UnsupportedImage));
}

#[test]
fn garbage_image_is_unsupported() {
    let r = Message::from_image("cat.png", FileProbe::Contents(vec![1, 2, 3, 4]));
    assert_eq!(r, Err(MessageError::UnsupportedImage));
}

#[test]
fn unknown_format_bytes_are_unsupported_even_with_png_name() {
    let r = Message::from_image("cat.png", FileProbe::Contents(b"GIF89a not really".to_vec()));
    assert_eq!(r, Err(MessageError::UnsupportedImage));
}

#[test]
fn missing_image_is_read_failure() {
    assert_eq!(Message::from_image("cat.png", FileProbe::Missing), Err(MessageError::FileReadFailed));
    assert_eq!(Message::from_image("cat.png", FileProbe::Unreadable), Err(MessageError::FileReadFailed));
}
