use std::path::PathBuf;

use domain::diary::{
    check_entry_images, check_found_images, group_into_days, prepare_found_entry, local_date_of, prepare_entry, timestamp_from_local, Diary, DiaryView, Entry,
    Image, NewEntry, NewImage,
};
use domain::error::Error;
use domain::images::ImageService;
use domain::tokens::new_share_token;
use jiff::Timestamp;

fn ts(s: &str) -> i64 {
    s.parse::<Timestamp>().unwrap().as_second()
}

fn entry(id: i64, local_date: &str, occurred_at: i64) -> Entry {
    Entry {
        id,
        diary_id: 1,
        local_date: local_date.to_string(),
        occurred_at,
        created_at: 0,
        text: Some(format!("entry {id}")),
    }
}

fn image(id: i64, entry_id: i64, position: i64) -> Image {
    Image {
        id,
        entry_id,
        hash: format!("{:064x}", id),
        width: 1000,
        height: 500,
        position,
        alt: None,
    }
}

#[test]
fn reads_wall_clock_times_in_the_diary_timezone() {
    // Winter: Berlin is UTC+1, so 00:30 local is 23:30 the previous day UTC.
    assert_eq!(
        timestamp_from_local("Europe/Berlin", "2026-01-02T00:30").unwrap(),
        ts("2026-01-01T23:30:00Z")
    );
    // Summer: UTC+2.
    assert_eq!(
        timestamp_from_local("Europe/Berlin", "2026-07-01T12:00:00").unwrap(),
        ts("2026-07-01T10:00:00Z")
    );
    assert!(timestamp_from_local("Europe/Berlin", "nonsense").is_err());
    assert!(timestamp_from_local("Not/AZone", "2026-01-02T00:30").is_err());
}

#[test]
fn bad_local_times_are_time_errors() {
    assert!(matches!(timestamp_from_local("Europe/Berlin", "nonsense"), Err(Error::Time(_))));
    assert!(matches!(timestamp_from_local("Not/AZone", "2026-01-02T00:30"), Err(Error::Time(_))));
}

#[test]
fn local_dates_follow_the_diary_timezone() {
    // 23:30Z is already the next calendar day in Berlin.
    assert_eq!(local_date_of("Europe/Berlin", ts("2026-01-01T23:30:00Z")).unwrap(), "2026-01-02");
    assert_eq!(local_date_of("Europe/Berlin", ts("2026-01-01T09:00:00Z")).unwrap(), "2026-01-01");
    assert_eq!(local_date_of("UTC", ts("2026-01-01T23:30:00Z")).unwrap(), "2026-01-01");
    assert!(matches!(local_date_of("Not/AZone", 0), Err(Error::Time(_))));
}

#[test]
fn share_tokens_are_43_characters() {
    let a = new_share_token();
    let b = new_share_token();
    assert_eq!(a.len(), 43, "{a}");
    assert!(a.chars().all(|c| c.is_ascii_alphanumeric() || c == '-' || c == '_'));
    assert_ne!(a, b);
}

#[test]
fn groups_consecutive_entries_by_day() {
    // Newest day first, and within a day in the order things happened.
    let entries = vec![
        entry(3, "2026-01-02", 30),
        entry(1, "2026-01-01", 10),
        entry(2, "2026-01-01", 20),
    ];
    let images = vec![image(10, 2, 0), image(11, 3, 0), image(12, 2, 1), image(13, 99, 0)];
    let days = group_into_days(entries, images);
    let dates: Vec<&str> = days.iter().map(|d| d.local_date.as_str()).collect();
    assert_eq!(dates, ["2026-01-02", "2026-01-01"]);
    let ids: Vec<Vec<i64>> = days.iter().map(|d| d.entries.iter().map(|e| e.entry.id).collect()).collect();
    assert_eq!(ids, vec![vec![3], vec![1, 2]]);
    let photos: Vec<Vec<i64>> = days[1].entries.iter().map(|e| e.images.iter().map(|i| i.id).collect()).collect();
    assert_eq!(photos, vec![vec![], vec![10, 12]]);
    assert_eq!(days[0].entries[0].images.len(), 1);
    assert_eq!(days[0].entries[0].images[0].id, 11);
}

#[test]
fn a_date_that_comes_back_starts_a_new_day() {
    let entries = vec![entry(1, "a", 0), entry(2, "b", 0), entry(3, "a", 0)];
    let days = group_into_days(entries, vec![]);
    assert_eq!(days.len(), 3);
}

#[test]
fn empty_diary_has_no_days() {
    let view = DiaryView::from_rows(
        Diary {
            id: 1,
            title: "Mochi".into(),
            description: Some("week one".into()),
            share_token: "x".into(),
            timezone: "Europe/Berlin".into(),
            created_at: 0,
        },
        vec![],
        vec![image(1, 1, 0)],
    );
    assert!(view.days.is_empty());
    assert_eq!(view.diary.title, "Mochi");
}

#[test]
fn duplicate_entry_ids_share_photos_once() {
    let days = group_into_days(vec![entry(5, "d", 0), entry(5, "d", 1)], vec![image(1, 5, 0)]);
    assert_eq!(days[0].entries[0].images.len(), 1);
    assert_eq!(days[0].entries[1].images.len(), 0);
}

#[test]
fn unknown_or_hostile_hashes_are_not_found() {
    let svc = ImageService::new(PathBuf::from("/nonexistent-images"));
    let zeros = "0".repeat(64);
    for bad in ["../../etc", zeros.as_str(), "not-a-hash"] {
        let result = prepare_entry(
            "Europe/Berlin",
            &svc,
            NewEntry {
                occurred_at: ts("2026-01-03T09:00:00Z"),
                text: None,
                images: vec![NewImage { hash: bad.to_string(), width: 100, height: 100, alt: None }],
            },
        );
        assert!(matches!(result, Err(Error::NotFound)), "{bad}");
    }
}

#[test]
fn prepared_entries_carry_their_local_date() {
    let svc = ImageService::new(PathBuf::from("/nonexistent-images"));
    let prepared = prepare_entry(
        "Europe/Berlin",
        &svc,
        NewEntry { occurred_at: ts("2026-01-01T23:30:00Z"), text: Some("late night".into()), images: vec![] },
    )
    .unwrap();
    assert_eq!(prepared.local_date, "2026-01-02");
    assert_eq!(prepared.text.as_deref(), Some("late night"));
    assert!(prepared.images.is_empty());

    let bad_zone = prepare_entry(
        "Not/AZone",
        &svc,
        NewEntry { occurred_at: 0, text: None, images: vec![] },
    );
    assert!(matches!(bad_zone, Err(Error::Time(_))));
}

#[test]
fn entries_without_photos_pass_the_image_check() {
    let svc = ImageService::new(PathBuf::from("/nonexistent-images"));
    let ok = NewEntry { occurred_at: 0, text: None, images: vec![] };
    assert!(check_entry_images(&svc, &ok).is_ok());
    let missing = NewEntry {
        occurred_at: 0,
        text: None,
        images: vec![NewImage { hash: "f".repeat(64), width: 1, height: 1, alt: None }],
    };
    assert!(matches!(check_entry_images(&svc, &missing), Err(Error::NotFound)));
}

#[test]
fn missing_blobs_refuse_the_entry() {
    let hash = "0".repeat(64);
    let entry = NewEntry {
        occurred_at: ts("2026-01-03T09:00:00Z"),
        text: None,
        images: vec![
            NewImage { hash: "a".repeat(64), width: 1, height: 1, alt: None },
            NewImage { hash: hash.clone(), width: 1, height: 1, alt: None },
        ],
    };
    assert!(check_found_images(&entry, &vec![true, true]).is_ok());
    assert!(matches!(check_found_images(&entry, &vec![true, false]), Err(Error::NotFound)));
    assert!(matches!(check_found_images(&entry, &vec![false, true]), Err(Error::NotFound)));
    let hostile = NewEntry {
        occurred_at: 0,
        text: None,
        images: vec![NewImage { hash: "../../etc".into(), width: 1, height: 1, alt: None }],
    };
    assert!(matches!(check_found_images(&hostile, &vec![true]), Err(Error::NotFound)));
}

#[test]
fn found_photos_are_numbered_in_order() {
    let entry = NewEntry {
        occurred_at: ts("2026-01-01T23:30:00Z"),
        text: Some("late night".into()),
        images: vec![
            NewImage { hash: "a".repeat(64), width: 1000, height: 500, alt: Some("a cat".into()) },
            NewImage { hash: "b".repeat(64), width: 10, height: 20, alt: None },
        ],
    };
    let prepared = prepare_found_entry("Europe/Berlin", entry, &vec![true, true]).unwrap();
    assert_eq!(prepared.local_date, "2026-01-02");
    let got: Vec<(i64, i64, i64)> = prepared.images.iter().map(|i| (i.width, i.height, i.position)).collect();
    assert_eq!(got, vec![(1000, 500, 0), (10, 20, 1)]);
    assert_eq!(prepared.images[0].alt.as_deref(), Some("a cat"));

    let missing = NewEntry {
        occurred_at: 0,
        text: None,
        images: vec![NewImage { hash: "a".repeat(64), width: 1, height: 1, alt: None }],
    };
    assert!(matches!(prepare_found_entry("Not/AZone", missing, &vec![false]), Err(Error::NotFound)));
}
