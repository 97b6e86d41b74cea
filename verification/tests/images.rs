use std::collections::HashSet;
use std::path::PathBuf;

use domain::images::{
    content_hash, is_blob_hash, is_gc_candidate, is_past_grace, ladder_for, scale_height,
    variant_file_name_string, variant_url_string, variants_for, ImageService, WIDTH_LADDER,
};

#[test]
fn ladder_stops_at_the_widest_rung() {
    // A phone photo gets the four rungs and nothing at full resolution.
    let steps: Vec<u32> = ladder_for(4032);
    assert_eq!(steps, WIDTH_LADDER);

    // Below the top rung the original is still the last step, so smaller
    // images keep an exact-size variant.
    assert_eq!(ladder_for(900), [400, 800, 900]);
    assert_eq!(ladder_for(2400), WIDTH_LADDER);
}

#[test]
fn ladder_never_upscales() {
    for original in [300u32, 400, 900, 1000, 3000] {
        let steps: Vec<u32> = ladder_for(original);

        assert!(!steps.is_empty());
        assert!(steps.iter().all(|s| *s <= original), "{original} -> {steps:?}");
    }
}

#[test]
fn ladder_edges() {
    assert_eq!(ladder_for(0), [0]);
    assert_eq!(ladder_for(400), [400]);
    assert_eq!(ladder_for(401), [400, 401]);
    assert_eq!(ladder_for(1600), [400, 800, 1600]);
    assert_eq!(ladder_for(2399), [400, 800, 1600, 2399]);
    assert_eq!(ladder_for(u32::MAX), WIDTH_LADDER);
}

#[test]
fn ladder_is_strictly_increasing() {
    for original in [1u32, 399, 400, 799, 800, 801, 1601, 2400, 5000] {
        let steps = ladder_for(original);
        assert!(steps.windows(2).all(|w| w[0] < w[1]), "{original} -> {steps:?}");
        assert_eq!(*steps.last().unwrap(), original.min(2400));
    }
}

#[test]
fn scale_height_keeps_aspect_and_floors() {
    assert_eq!(scale_height(1000, 500, 400), 200);
    assert_eq!(scale_height(4032, 3024, 2400), 1800);
    assert_eq!(scale_height(3, 2, 2), 1);
    // Very wide panoramas never get a zero-height variant.
    assert_eq!(scale_height(10000, 1, 400), 1);
    assert_eq!(scale_height(500, 1000, 500), 1000);
}

#[test]
fn blob_hashes_are_64_hex_digits() {
    assert!(is_blob_hash(&"f".repeat(64)));
    assert!(is_blob_hash(&"0".repeat(64)));
    assert!(is_blob_hash(&"aB3".repeat(21).chars().chain("c".chars()).collect::<String>()));
    assert!(!is_blob_hash(&"f".repeat(63)));
    assert!(!is_blob_hash(&"f".repeat(65)));
    assert!(!is_blob_hash("../../etc"));
    assert!(!is_blob_hash("not-a-hash"));
    assert!(!is_blob_hash(""));
    assert!(!is_blob_hash(&format!("{}g", "a".repeat(63))));
    // 32 two-byte characters are 64 bytes but not hex digits.
    assert!(!is_blob_hash(&"é".repeat(32)));
}

#[test]
fn content_hash_is_blake3_hex() {
    let h = content_hash(b"abc");
    assert_eq!(h, "6437b3ac38465133ffb63b75273a8db548c558465d79db03fd359c6cd5bd9d85");
    assert!(is_blob_hash(&h));
    let empty = content_hash(b"");
    assert_eq!(empty, "af1349b9f5f9a1a6a0404dea36dcc9499bcb25c9adc112b7cc9a93cae41f3262");
}

#[test]
fn variant_names_and_urls() {
    assert_eq!(variant_file_name_string(400), "400.webp");
    assert_eq!(variant_file_name_string(0), "0.webp");
    assert_eq!(variant_file_name_string(4294967295), "4294967295.webp");
    assert_eq!(variant_url_string("abc", 1600), "/img/abc/1600.webp");
}

#[test]
fn variants_for_a_landscape_photo() {
    let v = variants_for(1000, 500);
    let got: Vec<(u32, u32, String)> = v.into_iter().map(|t| (t.width, t.height, t.file_name)).collect();
    assert_eq!(
        got,
        vec![(400, 200, "400.webp".to_string()), (800, 400, "800.webp".to_string()), (1000, 500, "1000.webp".to_string())]
    );
}

#[test]
fn derive_sourceset_lists_every_variant() {
    let svc = ImageService::new(PathBuf::from("/nonexistent-images"));
    let hash = "a".repeat(64);
    let set = svc.derive_sourceset(&hash, 900);
    let got: Vec<(String, u32)> = set.into_iter().map(|e| (e.url, e.width)).collect();
    assert_eq!(
        got,
        vec![
            (format!("/img/{hash}/400.webp"), 400),
            (format!("/img/{hash}/800.webp"), 800),
            (format!("/img/{hash}/900.webp"), 900),
        ]
    );
}

#[test]
fn blob_exists_refuses_names_that_are_not_hashes() {
    let svc = ImageService::new(PathBuf::from("/"));
    // "tmp" is a directory under "/", but not a blob hash.
    assert!(!svc.blob_exists("tmp"));
    assert!(!svc.blob_exists("../../etc"));
    let missing = ImageService::new(PathBuf::from("/nonexistent-images"));
    assert!(!missing.blob_exists(&"f".repeat(64)));
}

#[test]
fn gc_candidates() {
    let fresh = "f".repeat(64);
    let kept = "a".repeat(64);
    let referenced = HashSet::from([kept.clone()]);
    assert!(is_gc_candidate(true, Some(&fresh), &referenced));
    assert!(!is_gc_candidate(true, Some(&kept), &referenced));
    assert!(!is_gc_candidate(false, Some(&fresh), &referenced));
    assert!(!is_gc_candidate(true, None, &referenced));
    assert!(!is_gc_candidate(true, Some("lost+found"), &referenced));
}

#[test]
fn gc_grace_period_is_an_hour() {
    assert!(!is_past_grace(0));
    assert!(!is_past_grace(3599));
    assert!(is_past_grace(3600));
    assert!(is_past_grace(u64::MAX));
}
