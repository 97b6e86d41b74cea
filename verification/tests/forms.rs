use domain::error::{AppError, Error, LogLevel};
use domain::forms::{
    blank_to_none, classify_entry_field, keeps_photo_part, login_failed, new_entry_from_form,
    now_unix, occurred_at_choice, unix_seconds_of, EntryField, LoginQuery, OccurredAt,
    SESSION_COOKIE,
};
use domain::text::{decimal_string, trimmed};

#[test]
fn blank_inputs_mean_no_value() {
    assert_eq!(blank_to_none(String::new()), None);
    assert_eq!(blank_to_none("   \t\n".into()), None);
    assert_eq!(blank_to_none("\u{3000}\u{a0}".into()), None);
    assert_eq!(blank_to_none("  week one ".into()), Some("week one".to_string()));
    assert_eq!(blank_to_none("a".into()), Some("a".to_string()));
}

#[test]
fn trimming_matches_str_trim() {
    for s in ["", " ", " a ", "a b", "\u{2028}x\u{205f}", "\u{200b}x", "é ", "\u{85}\u{1680}z"] {
        assert_eq!(trimmed(s), s.trim(), "{s:?}");
    }
}

#[test]
fn decimal_strings_match_display() {
    for n in [0u32, 7, 10, 99, 400, 12345, u32::MAX] {
        assert_eq!(decimal_string(n), n.to_string());
    }
}

#[test]
fn login_page_reports_failure() {
    assert!(login_failed(&LoginQuery { failed: Some("1".into()) }));
    assert!(!login_failed(&LoginQuery { failed: None }));
    assert_eq!(SESSION_COOKIE, "session");
}

#[test]
fn clock_is_after_2020() {
    assert!(now_unix() > 1_577_836_800);
}

#[test]
fn error_statuses() {
    assert_eq!(AppError::Domain(Error::NotFound).status(), 404);
    assert_eq!(AppError::Domain(Error::Unauthorized).status(), 401);
    assert_eq!(AppError::Domain(Error::BadToken).status(), 401);
    assert_eq!(AppError::Domain(Error::BadImage("x".into())).status(), 415);
    assert_eq!(AppError::Domain(Error::UnsupportedImage).status(), 415);
    assert_eq!(AppError::Domain(Error::Time("x".into())).status(), 400);
    assert_eq!(AppError::Domain(Error::Db("x".into())).status(), 500);
    assert_eq!(AppError::Domain(Error::Io("x".into())).status(), 500);
    assert_eq!(AppError::bad_request("bad".into()).status(), 400);
    assert_eq!(AppError::internal("boom".into()).status(), 500);
    assert_eq!(AppError::from(Error::NotFound).status(), 404);
}

#[test]
fn only_server_errors_are_logged_as_errors() {
    assert!(matches!(AppError::Domain(Error::Db("x".into())).log_level(), LogLevel::Error));
    assert!(matches!(AppError::Domain(Error::NotFound).log_level(), LogLevel::Silent));
    assert!(matches!(AppError::internal("x".into()).log_level(), LogLevel::Error));
    assert!(matches!(AppError::bad_request("x".into()).log_level(), LogLevel::Debug));
}

#[test]
fn error_messages() {
    assert_eq!(Error::Unauthorized.message(), "unauthorized");
    assert_eq!(Error::BadToken.message(), "malformed session token");
    assert_eq!(Error::NotFound.message(), "not found");
    assert_eq!(Error::Db("disk full".into()).message(), "disk full");
    assert_eq!(Error::BadImage("x".into()).message(), "unreadable image");
    assert_eq!(Error::Time("x".into()).message(), "invalid timezone or timestamp");
}

#[test]
fn clock_readings_convert_as_casts_do() {
    assert_eq!(unix_seconds_of(Some(1_767_310_200)), 1_767_310_200);
    assert_eq!(unix_seconds_of(None), 0);
    assert_eq!(unix_seconds_of(Some(u64::MAX)), -1);
}

#[test]
fn entry_form_parts() {
    assert!(matches!(classify_entry_field("text"), EntryField::Text));
    assert!(matches!(classify_entry_field("occurred_at"), EntryField::OccurredAt));
    assert!(matches!(classify_entry_field("photos"), EntryField::Photo));
    assert!(matches!(classify_entry_field(""), EntryField::Other));
    assert!(matches!(classify_entry_field("photo"), EntryField::Other));
    assert!(!keeps_photo_part(0));
    assert!(keeps_photo_part(1));
    assert!(matches!(occurred_at_choice(""), OccurredAt::Now));
    assert!(matches!(occurred_at_choice("2026-01-02T00:30"), OccurredAt::Local));
    let entry = new_entry_from_form("  ".into(), 5, vec![]);
    assert_eq!((entry.occurred_at, entry.text, entry.images.len()), (5, None, 0));
    let entry = new_entry_from_form(" hi ".into(), 5, vec![]);
    assert_eq!(entry.text.as_deref(), Some("hi"));
}
