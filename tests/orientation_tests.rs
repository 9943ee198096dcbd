use image::{DynamicImage, GenericImageView};
use img_parts::ImageEXIF;
use media_organizer::{
    correct_orientation, get_orientation, is_jpeg_extension, orientation_info, patch_orientation,
    reset_exif_orientation_bytes, Orientation, ResetError,
};

#[test]
fn test_orientation_from_u32() {
    assert_eq!(Orientation::from(1), Orientation::Normal);
    assert_eq!(Orientation::from(3), Orientation::Rotate180);
    assert_eq!(Orientation::from(6), Orientation::Rotate90CW);
    assert_eq!(Orientation::from(8), Orientation::Rotate90CCW);
    assert_eq!(Orientation::from(99), Orientation::Unknown);
}

#[test]
fn test_correct_orientation() {
    let img = DynamicImage::new_rgb8(100, 100);

    let result = correct_orientation(img.clone(), Orientation::Normal);
    assert_eq!(result.dimensions(), (100, 100));

    let result = correct_orientation(img.clone(), Orientation::Rotate90CW);
    assert_eq!(result.dimensions(), (100, 100));
}

#[test]
fn quarter_turns_swap_sides() {
    let img = DynamicImage::new_rgb8(100, 50);
    assert_eq!(correct_orientation(img.clone(), Orientation::Rotate90CW).dimensions(), (50, 100));
    assert_eq!(correct_orientation(img.clone(), Orientation::Rotate90CCW).dimensions(), (50, 100));
    assert_eq!(correct_orientation(img.clone(), Orientation::Rotate180).dimensions(), (100, 50));
    assert_eq!(correct_orientation(img.clone(), Orientation::Unknown).dimensions(), (100, 50));
}

#[test]
fn upright_image_is_untouched() {
    let mut img = DynamicImage::new_rgb8(3, 2);
    img.as_mut_rgb8().unwrap().put_pixel(2, 1, image::Rgb([1, 2, 3]));
    let result = correct_orientation(img.clone(), Orientation::Normal);
    assert_eq!(result.as_bytes(), img.as_bytes());
}

#[test]
fn half_turn_moves_pixels() {
    let mut img = DynamicImage::new_rgb8(3, 2);
    img.as_mut_rgb8().unwrap().put_pixel(0, 0, image::Rgb([9, 9, 9]));
    let result = correct_orientation(img, Orientation::Rotate180);
    assert_eq!(result.as_rgb8().unwrap().get_pixel(2, 1).0, [9, 9, 9]);
}

#[test]
fn orientation_field_values() {
    let info = orientation_info(Some(6));
    assert_eq!(info.orientation, Orientation::Rotate90CW);
    assert!(info.needs_correction);
    let info = orientation_info(Some(1));
    assert_eq!(info.orientation, Orientation::Normal);
    assert!(!info.needs_correction);
    let info = orientation_info(None);
    assert_eq!(info.orientation, Orientation::Normal);
    assert!(!info.needs_correction);
    let info = get_orientation(None);
    assert_eq!(info.orientation, Orientation::Normal);
}

#[test]
fn jpeg_extensions() {
    assert!(is_jpeg_extension("jpg"));
    assert!(is_jpeg_extension("JPeG"));
    assert!(!is_jpeg_extension("png"));
    assert!(!is_jpeg_extension(""));
}

/// An EXIF segment as the container hands it out: 6 header bytes, then the
/// byte-order mark, then the rest of the TIFF data.
fn segment(order: &[u8; 2], tag_at: usize, tag: [u8; 2], len: usize) -> Vec<u8> {
    let mut e = vec![0u8; len];
    e[6] = order[0];
    e[7] = order[1];
    e[6 + tag_at] = tag[0];
    e[7 + tag_at] = tag[1];
    e[14 + tag_at] = 0x77;
    e[15 + tag_at] = 0x77;
    e
}

#[test]
fn patch_little_endian_orientation() {
    let e = segment(b"II", 10, [0x12, 0x01], 40);
    let p = patch_orientation(&e).unwrap();
    assert_eq!(p[24], 1);
    assert_eq!(p[25], 0);
    let mut expected = e.clone();
    expected[24] = 1;
    expected[25] = 0;
    assert_eq!(p, expected);
}

#[test]
fn patch_big_endian_orientation() {
    let e = segment(b"MM", 4, [0x01, 0x12], 40);
    let p = patch_orientation(&e).unwrap();
    assert_eq!(p[18], 0);
    assert_eq!(p[19], 1);
}

#[test]
fn patch_needs_identifier_in_scan_range() {
    assert_eq!(patch_orientation(&segment(b"II", 10, [0x01, 0x12], 40)), None);
    // Identifier too close to the end to be scanned.
    assert_eq!(patch_orientation(&segment(b"II", 22, [0x12, 0x01], 40)), None);
    assert_eq!(patch_orientation(&vec![0u8; 7]), None);
    assert_eq!(patch_orientation(&Vec::new()), None);
}

#[test]
fn reset_rejects_non_jpeg_data() {
    assert_eq!(reset_exif_orientation_bytes(vec![1, 2, 3]).err(), Some(ResetError::NotJpeg));
}

fn jpeg_with_app1(app1: Option<&[u8]>) -> Vec<u8> {
    let mut b = vec![0xFF, 0xD8];
    if let Some(data) = app1 {
        let len = (data.len() + 2) as u16;
        b.extend_from_slice(&[0xFF, 0xE1]);
        b.extend_from_slice(&len.to_be_bytes());
        b.extend_from_slice(data);
    }
    for marker in [0xDBu8, 0xC4, 0xC0] {
        b.extend_from_slice(&[0xFF, marker, 0x00, 0x04, 0x00, 0x00]);
    }
    // Start of scan, a little entropy-coded data, end of image.
    b.extend_from_slice(&[0xFF, 0xDA, 0x00, 0x04, 0x00, 0x00, 0x11, 0x22, 0xFF, 0xD9]);
    b
}

#[test]
fn reset_without_exif_writes_nothing() {
    let jpeg = jpeg_with_app1(None);
    assert_eq!(reset_exif_orientation_bytes(jpeg), Ok(None));
}

#[test]
fn reset_rewrites_orientation_in_jpeg() {
    let e = segment(b"II", 10, [0x12, 0x01], 40);
    let mut app1 = b"Exif\0\0".to_vec();
    app1.extend_from_slice(&e);
    let jpeg = jpeg_with_app1(Some(&app1));
    let out = reset_exif_orientation_bytes(jpeg).unwrap().unwrap();
    let parsed = img_parts::jpeg::Jpeg::from_bytes(out.into()).unwrap();
    let exif = parsed.exif().unwrap().to_vec();
    let mut expected = e.clone();
    expected[24] = 1;
    expected[25] = 0;
    assert_eq!(exif, expected);
}

#[test]
fn quarter_turns_place_pixels() {
    // A 3 by 2 image with a marked pixel at column 0, row 0.
    let mut img = DynamicImage::new_rgb8(3, 2);
    img.as_mut_rgb8().unwrap().put_pixel(0, 0, image::Rgb([5, 6, 7]));
    let cw = correct_orientation(img.clone(), Orientation::Rotate90CW);
    assert_eq!(cw.as_rgb8().unwrap().get_pixel(1, 0).0, [5, 6, 7]);
    let ccw = correct_orientation(img, Orientation::Rotate90CCW);
    assert_eq!(ccw.as_rgb8().unwrap().get_pixel(0, 2).0, [5, 6, 7]);
}
