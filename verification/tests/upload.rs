use domain::error::Error;
use domain::images::{content_hash, is_blob_hash, prepare_upload};

/// A JPEG carrying a single EXIF Orientation tag, built by hand so the test
/// doesn't need a binary fixture.
fn jpeg_with_orientation(width: u32, height: u32, orientation: u16) -> Vec<u8> {
    let mut jpeg = Vec::new();
    image::DynamicImage::ImageRgb8(image::RgbImage::new(width, height))
        .write_to(&mut std::io::Cursor::new(&mut jpeg), image::ImageFormat::Jpeg)
        .unwrap();

    let mut tiff = Vec::new();
    tiff.extend_from_slice(b"II*\0");
    tiff.extend_from_slice(&8u32.to_le_bytes()); // offset of IFD0
    tiff.extend_from_slice(&1u16.to_le_bytes()); // one entry
    tiff.extend_from_slice(&0x0112u16.to_le_bytes()); // Orientation
    tiff.extend_from_slice(&3u16.to_le_bytes()); // SHORT
    tiff.extend_from_slice(&1u32.to_le_bytes()); // count
    tiff.extend_from_slice(&orientation.to_le_bytes());
    tiff.extend_from_slice(&[0, 0]); // value field padded to 4 bytes
    tiff.extend_from_slice(&0u32.to_le_bytes()); // no next IFD

    let mut app1 = Vec::from(*b"Exif\0\0");
    app1.extend_from_slice(&tiff);

    let mut out = Vec::new();
    out.extend_from_slice(&jpeg[..2]); // SOI
    out.extend_from_slice(&[0xFF, 0xE1]);
    out.extend_from_slice(&((app1.len() + 2) as u16).to_be_bytes());
    out.extend_from_slice(&app1);
    out.extend_from_slice(&jpeg[2..]);
    out
}

#[test]
fn applies_exif_orientation() {
    let uploaded = prepare_upload(&jpeg_with_orientation(1000, 500, 6)).unwrap();

    // Orientation 6 means "rotate 90", so the landscape source is
    // displayed as a portrait and the dimensions swap.
    assert_eq!((uploaded.width, uploaded.height), (500, 1000));
}

#[test]
fn leaves_unoriented_images_alone() {
    let uploaded = prepare_upload(&jpeg_with_orientation(1000, 500, 1)).unwrap();

    assert_eq!((uploaded.width, uploaded.height), (1000, 500));
}

#[test]
fn uploads_are_stored_under_their_lowercase_digest() {
    let bytes = jpeg_with_orientation(1000, 500, 1);
    let uploaded = prepare_upload(&bytes).unwrap();
    assert_eq!(uploaded.hash, content_hash(&bytes));
    assert_eq!(uploaded.hash, blake3::hash(&bytes).to_hex().to_string());
    assert!(is_blob_hash(&uploaded.hash));
    assert!(uploaded.hash.chars().all(|c| c.is_ascii_digit() || ('a'..='f').contains(&c)));
}

#[test]
fn variants_follow_the_ladder() {
    let uploaded = prepare_upload(&jpeg_with_orientation(1000, 500, 1)).unwrap();
    let got: Vec<(u32, u32, String, usize)> = uploaded
        .variants
        .iter()
        .map(|v| (v.width, v.height, v.file_name.clone(), v.rgb.len()))
        .collect();
    assert_eq!(
        got,
        vec![
            (400, 200, "400.webp".to_string(), 400 * 200 * 3),
            (800, 400, "800.webp".to_string(), 800 * 400 * 3),
            (1000, 500, "1000.webp".to_string(), 1000 * 500 * 3),
        ]
    );
}

#[test]
fn rotated_uploads_are_resized_upright() {
    let uploaded = prepare_upload(&jpeg_with_orientation(1000, 500, 6)).unwrap();
    let sizes: Vec<(u32, u32)> = uploaded.variants.iter().map(|v| (v.width, v.height)).collect();
    assert_eq!(sizes, vec![(400, 800), (500, 1000)]);
}

#[test]
fn unreadable_uploads_are_bad_images() {
    assert!(matches!(prepare_upload(b"not an image"), Err(Error::BadImage(_))));
    assert!(matches!(prepare_upload(b""), Err(Error::BadImage(_))));
}
