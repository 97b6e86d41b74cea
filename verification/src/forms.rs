//! What the admin and login forms submit, and how their fields are read.
use vstd::prelude::*;

use crate::diary::{NewEntry, NewImage};
use crate::text::{same_text, trim, trimmed};

verus! {

/// The name of the cookie that carries the session.
pub const SESSION_COOKIE: &'static str = "session";

/// The fields of the form that creates a diary.
pub struct DiaryForm {
    pub title: String,
    pub description: String,
    pub timezone: String,
}

/// The fields of the form that edits a diary.
pub struct DiaryUpdateForm {
    pub title: String,
    pub description: String,
}

/// The field of the form that edits an entry.
pub struct EntryForm {
    pub text: String,
}

/// The field of the login form.
pub struct LoginForm {
    pub token: String,
}

/// The query of the login page; `failed` is present after a refused login.
pub struct LoginQuery {
    pub failed: Option<String>,
}

/// An optional text field as submitted: an empty or blank input means "no
/// value", and anything else is kept without its surrounding whitespace.
pub fn blank_to_none(value: String) -> (r: Option<String>)
    ensures
        r is None <==> trim(value@).len() == 0,
        r matches Some(t) ==> t@ == trim(value@),
{
    let t = trimmed(value.as_str());
    if t.unicode_len() == 0 {
        None
    } else {
        Some(t)
    }
}

/// Whether the login page reports a refused login.
pub fn login_failed(query: &LoginQuery) -> (r: bool)
    ensures
        r == query.failed is Some,
{
    query.failed.is_some()
}

/// `SystemTime::now` as whole seconds since the Unix epoch, or `None` for a
/// clock set before the epoch; what it returns depends on when it is called.
#[verifier::external_body]
fn system_clock_secs() -> (r: Option<u64>) {
    match std::time::SystemTime::now().duration_since(std::time::UNIX_EPOCH) {
        Ok(d) => Some(d.as_secs()),
        Err(_) => None,
    }
}

/// A reading of the system clock as a signed count of seconds: the seconds
/// since the epoch converted as `as i64` converts, or 0 when the clock is set
/// before the epoch.
pub open spec fn clock_reading(secs: Option<u64>) -> i64 {
    match secs {
        Some(s) => s as i64,
        None => 0,
    }
}

/// A reading of the system clock as the signed count of seconds the library
/// works with: the seconds since the epoch converted as `as i64` converts, or
/// 0 for a clock set before the epoch.
pub fn unix_seconds_of(secs: Option<u64>) -> (r: i64)
    ensures
        r == clock_reading(secs),
{
    match secs {
        Some(s) => {
            #[verifier::truncate]
            (s as i64)
        },
        None => 0,
    }
}

/// The current Unix time in seconds; 0 for a clock set before the epoch.
pub fn now_unix() -> (r: i64)
    ensures
        exists|secs: Option<u64>| r == #[trigger] clock_reading(secs),
{
    let secs = system_clock_secs();
    unix_seconds_of(secs)
}

/// What a part of the multipart form that posts an entry carries.
pub enum EntryField {
    /// The entry's text.
    Text,
    /// The wall-clock time it happened, in the diary's zone.
    OccurredAt,
    /// One photo.
    Photo,
    /// Anything else, which is ignored.
    Other,
}

pub open spec fn entry_field_of(name: Seq<char>) -> EntryField {
    if name == "text"@ {
        EntryField::Text
    } else if name == "occurred_at"@ {
        EntryField::OccurredAt
    } else if name == "photos"@ {
        EntryField::Photo
    } else {
        EntryField::Other
    }
}

/// Which field a part named `name` fills (a part without a name has the
/// empty name).
pub fn classify_entry_field(name: &str) -> (r: EntryField)
    ensures
        r == entry_field_of(name@),
{
    if same_text(name, "text") {
        EntryField::Text
    } else if same_text(name, "occurred_at") {
        EntryField::OccurredAt
    } else if same_text(name, "photos") {
        EntryField::Photo
    } else {
        EntryField::Other
    }
}

/// Whether a photo part of `len` bytes is uploaded: an empty file input still
/// sends one empty part, which is skipped.
pub fn keeps_photo_part(len: usize) -> (r: bool)
    ensures
        r == (len > 0),
{
    len > 0
}

/// When a posted entry happened.
pub enum OccurredAt {
    /// No time was given: now.
    Now,
    /// The given wall-clock time, read in the diary's zone.
    Local,
}

/// When an entry happened, given the time field as posted: an empty field
/// means now.
pub fn occurred_at_choice(occurred_at_local: &str) -> (r: OccurredAt)
    ensures
        r == (if occurred_at_local@.len() == 0 {
            OccurredAt::Now
        } else {
            OccurredAt::Local
        }),
{
    if occurred_at_local.unicode_len() == 0 {
        OccurredAt::Now
    } else {
        OccurredAt::Local
    }
}

/// The entry a posted form describes: its time, its text with a blank text
/// meaning none, and its uploaded photos in the order they were posted.
pub fn new_entry_from_form(text: String, occurred_at: i64, images: Vec<NewImage>) -> (r: NewEntry)
    ensures
        r.occurred_at == occurred_at,
        r.text is None <==> trim(text@).len() == 0,
        r.text matches Some(t) ==> t@ == trim(text@),
        r.images == images,
{
    NewEntry { occurred_at, text: blank_to_none(text), images }
}

} // verus!
