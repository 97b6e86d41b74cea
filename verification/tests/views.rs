use std::path::PathBuf;

use domain::diary::{Day, Diary, DiaryView, Entry, EntryView, Image};
use domain::images::ImageService;
use domain::views::{render_days, tilt_for};

fn view_with(hash: &str, width: i64, alt: Option<&str>) -> DiaryView {
    DiaryView {
        diary: Diary {
            id: 1,
            title: "t".into(),
            description: None,
            share_token: "s".into(),
            timezone: "UTC".into(),
            created_at: 0,
        },
        days: vec![Day {
            local_date: "2026-01-01".into(),
            entries: vec![EntryView {
                entry: Entry {
                    id: 7,
                    diary_id: 1,
                    local_date: "2026-01-01".into(),
                    occurred_at: 0,
                    created_at: 0,
                    text: Some("hello".into()),
                },
                images: vec![Image {
                    id: 9,
                    entry_id: 7,
                    hash: hash.to_string(),
                    width,
                    height: 500,
                    position: 0,
                    alt: alt.map(|a| a.to_string()),
                }],
            }],
        }],
    }
}

#[test]
fn renders_srcset_and_fallback() {
    let hash = "0".repeat(64);
    let svc = ImageService::new(PathBuf::from("/nonexistent-images"));
    let days = render_days(&view_with(&hash, 900, Some("a cat")), &svc);
    assert_eq!(days.len(), 1);
    assert_eq!(days[0].local_date, "2026-01-01");
    let e = &days[0].entries[0];
    assert_eq!(e.id, 7);
    assert_eq!(e.text.as_deref(), Some("hello"));
    let img = &e.images[0];
    assert_eq!(img.id, 9);
    assert_eq!(img.src, format!("/img/{hash}/900.webp"));
    assert_eq!(
        img.srcset,
        format!("/img/{hash}/400.webp 400w, /img/{hash}/800.webp 800w, /img/{hash}/900.webp 900w")
    );
    assert_eq!((img.width, img.height), (900, 500));
    assert_eq!(img.alt, "a cat");
    assert_eq!(img.tilt, 0);
}

#[test]
fn missing_alt_is_empty() {
    let svc = ImageService::new(PathBuf::from("/x"));
    let days = render_days(&view_with("abc", 300, None), &svc);
    let img = &days[0].entries[0].images[0];
    assert_eq!(img.alt, "");
    assert_eq!(img.srcset, "/img/abc/300.webp 300w");
    assert_eq!(img.src, "/img/abc/300.webp");
}

#[test]
fn tilt_comes_from_the_hash_prefix() {
    assert_eq!(tilt_for("00000001ffff"), 1);
    assert_eq!(tilt_for("00000002"), 2);
    assert_eq!(tilt_for("ffffffff"), 0xffff_ffffu32 % 3);
    assert_eq!(tilt_for("0000000Bxyz"), 11 % 3);
    assert_eq!(tilt_for("+0000004"), 1);
    assert_eq!(tilt_for("short"), 0);
    assert_eq!(tilt_for("zzzzzzzz"), 0);
    assert_eq!(tilt_for("-0000004"), 0);
    assert_eq!(tilt_for("+"), 0);
    assert_eq!(tilt_for("éééé"), 0);
    // Always one of the three tilts.
    for h in ["6437b3ac38465133", "af1349b9f5f9a1a6", "12345678"] {
        let expected = u32::from_str_radix(&h[..8], 16).unwrap() % 3;
        assert_eq!(tilt_for(h), expected);
        assert!(tilt_for(h) < 3);
    }
}

#[test]
fn wide_photos_fall_back_to_the_widest_rung() {
    let svc = ImageService::new(PathBuf::from("/x"));
    let days = render_days(&view_with("h", 4032, None), &svc);
    assert_eq!(days[0].entries[0].images[0].src, "/img/h/2400.webp");
}
