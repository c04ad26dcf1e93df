use wmonitor::common::bitmap::{GrayBitmap, RgbaBitmap};
use wmonitor::common::png::{CodecError, ImagePng};

#[test]
fn an_rgba_image_comes_back_from_png_as_it_went_in() {
    let data: Vec<u8> = (0..24).map(|i| (i * 10) as u8).collect();
    let img = RgbaBitmap::from_raw(3, 2, data.clone()).unwrap();
    let png = ImagePng::try_from_rgba(img.clone()).unwrap();
    let bytes = png.clone().into_inner();
    assert_eq!(&bytes[..8], &[0x89, b'P', b'N', b'G', 0x0D, 0x0A, 0x1A, 0x0A]);
    assert_ne!(bytes, data);
    assert_eq!(png.try_to_rgba().unwrap(), img);
}

#[test]
fn a_gray_image_comes_back_from_png_as_it_went_in() {
    let img = GrayBitmap::from_raw(2, 2, vec![0, 255, 255, 0]).unwrap();
    let png = ImagePng::try_from_gray(img.clone()).unwrap();
    assert_eq!(png.clone().try_to_gray().unwrap(), img);
    let as_rgba = png.try_to_rgba().unwrap();
    assert_eq!(as_rgba.dimensions(), (2, 2));
    assert_eq!(as_rgba.get_pixel(1, 0), [255, 255, 255, 255]);
    assert_eq!(as_rgba.get_pixel(0, 0), [0, 0, 0, 255]);
}

#[test]
fn bytes_that_are_no_png_are_not_decoded() {
    let junk = ImagePng::new(vec![1, 2, 3, 4, 5]);
    assert!(matches!(junk.clone().try_to_rgba(), Err(CodecError::Decode(_))));
    assert!(matches!(junk.try_to_gray(), Err(CodecError::Decode(_))));
    assert!(matches!(ImagePng::new(vec![]).try_to_rgba(), Err(CodecError::Decode(_))));
}

#[test]
fn an_encoded_image_keeps_its_bytes() {
    let png = ImagePng::new(vec![9, 8, 7]);
    assert_eq!(png.clone(), ImagePng::new(vec![9, 8, 7]));
    assert_eq!(png.into_inner(), vec![9, 8, 7]);
}

#[test]
fn an_image_without_pixels_is_not_encoded() {
    let empty = RgbaBitmap::from_raw(0, 0, vec![]).unwrap();
    assert!(matches!(ImagePng::try_from_rgba(empty), Err(CodecError::Encode(_))));
    let flat = GrayBitmap::from_raw(3, 0, vec![]).unwrap();
    assert!(matches!(ImagePng::try_from_gray(flat), Err(CodecError::Encode(_))));
}
