//! Diaries, their entries and photos, and how the entries of a diary are
//! grouped into the days a page shows.
use std::collections::HashMap;

use vstd::prelude::*;

use crate::error::Error;
use crate::images::{is_blob_hash, is_blob_hash_spec, ImageService};
use crate::zones::{
    civil_date_of_unix, jiff_civil_to_unix, jiff_unix_to_civil_date,
    unix_seconds_of_civil,
};

verus! {

broadcast use vstd::std_specs::hash::group_hash_axioms;

#[derive(Debug)]
pub struct Diary {
    pub id: i64,
    pub title: String,
    pub description: Option<String>,
    pub share_token: String,
    pub timezone: String,
    pub created_at: i64,
}

/// A diary with its entries grouped by day.
#[derive(Debug)]
pub struct DiaryView {
    pub diary: Diary,
    pub days: Vec<Day>,
}

/// The entries of one calendar day in the diary's time zone.
#[derive(Debug)]
pub struct Day {
    pub local_date: String,
    pub entries: Vec<EntryView>,
}

#[derive(Debug)]
pub struct Entry {
    pub id: i64,
    pub diary_id: i64,
    pub local_date: String,
    pub occurred_at: i64,
    pub created_at: i64,
    pub text: Option<String>,
}

/// An entry with its photos.
#[derive(Debug)]
pub struct EntryView {
    pub entry: Entry,
    pub images: Vec<Image>,
}

#[derive(Debug)]
pub struct Image {
    pub id: i64,
    pub entry_id: i64,
    pub hash: String,
    pub width: i64,
    pub height: i64,
    pub position: i64,
    pub alt: Option<String>,
}

/// A diary to create.
#[derive(Debug)]
pub struct NewDiary {
    pub title: String,
    pub description: Option<String>,
    pub timezone: String,
}

/// An entry to create, with the photos already uploaded for it.
#[derive(Debug)]
pub struct NewEntry {
    pub occurred_at: i64,
    pub text: Option<String>,
    pub images: Vec<NewImage>,
}

/// A photo of a new entry: an uploaded blob and how to show it.
#[derive(Debug)]
pub struct NewImage {
    pub hash: String,
    pub width: u32,
    pub height: u32,
    pub alt: Option<String>,
}

/// The photos that belong to entry `entry_id`, in the order given.
pub open spec fn images_of_entry(images: Seq<Image>, entry_id: i64) -> Seq<Image> {
    images.filter(|image: Image| image.entry_id == entry_id)
}

/// Whether entry `k` is the first with its id.
pub open spec fn first_with_id(entries: Seq<Entry>, k: int) -> bool {
    forall|j: int| 0 <= j < k ==> entries[j].id != entries[k].id
}

/// The photos shown with entry `k`: those that belong to it, or none if an
/// earlier entry has the same id and took them.
pub open spec fn attached_images(entries: Seq<Entry>, images: Seq<Image>, k: int) -> Seq<Image> {
    if first_with_id(entries, k) {
        images_of_entry(images, entries[k].id)
    } else {
        Seq::empty()
    }
}

/// The entries of a list of days, day after day.
pub open spec fn day_entries(days: Seq<Day>) -> Seq<EntryView>
    decreases days.len(),
{
    if days.len() == 0 {
        Seq::empty()
    } else {
        day_entries(days.drop_last()) + days.last().entries@
    }
}

/// `days` are the entries grouped into days: the entries in their order, each
/// with its photos; every day holds at least one entry, all of its own date;
/// and a new day starts exactly where the date changes.
pub open spec fn grouped_into_days(days: Seq<Day>, entries: Seq<Entry>, images: Seq<Image>) -> bool {
    &&& day_entries(days).len() == entries.len()
    &&& forall|k: int|
        0 <= k < entries.len() ==> {
            &&& (#[trigger] day_entries(days)[k]).entry == entries[k]
            &&& day_entries(days)[k].images@ == attached_images(entries, images, k)
        }
    &&& forall|d: int|
        0 <= d < days.len() ==> {
            &&& (#[trigger] days[d]).entries@.len() > 0
            &&& forall|e: int|
                0 <= e < days[d].entries@.len() ==> (#[trigger] days[d].entries@[e]).entry.local_date@
                    == days[d].local_date@
        }
    &&& forall|d: int| 0 < d < days.len() ==> (#[trigger] days[d]).local_date@ != days[d - 1].local_date@
}

proof fn lemma_images_of_entry_step(images: Seq<Image>, i: int, id: i64)
    requires
        0 <= i < images.len(),
    ensures
        images_of_entry(images.take(i + 1), id) == (if images[i].entry_id == id {
            images_of_entry(images.take(i), id).push(images[i])
        } else {
            images_of_entry(images.take(i), id)
        }),
{
    reveal_with_fuel(Seq::filter, 1);
    assert(images.take(i + 1).drop_last() =~= images.take(i));
}

/// The elements of `v`, last first.
fn reversed<T>(v: Vec<T>) -> (r: Vec<T>)
    ensures
        r@.len() == v@.len(),
        forall|j: int| 0 <= j < v@.len() ==> #[trigger] r@[j] == v@[v@.len() - 1 - j],
{
    let ghost orig = v@;
    let mut v = v;
    let mut r: Vec<T> = Vec::new();
    while v.len() > 0
        invariant
            v@ == orig.take(v@.len() as int),
            r@.len() + v@.len() == orig.len(),
            forall|j: int| 0 <= j < r@.len() ==> #[trigger] r@[j] == orig[orig.len() - 1 - j],
        decreases v@.len(),
    {
        let ghost before = v@;
        let x = v.pop().unwrap();
        r.push(x);
        assert(v@ =~= orig.take(v@.len() as int));
    }
    r
}

proof fn lemma_day_entries_push(days: Seq<Day>, day: Day)
    ensures
        day_entries(days.push(day)) == day_entries(days) + day.entries@,
{
    assert(days.push(day).drop_last() =~= days);
}

/// Groups entries into days. The entries come ordered by day, so a new day
/// starts whenever the date changes and no grouping map is needed. Each entry
/// gets the photos that belong to it, in the order given.
pub fn group_into_days(entries: Vec<Entry>, images: Vec<Image>) -> (days: Vec<Day>)
    ensures
        grouped_into_days(days@, entries@, images@),
{
    let ghost all_images = images@;
    let ghost all_entries = entries@;
    let mut by_entry: HashMap<i64, Vec<Image>> = HashMap::new();
    let n_images = images.len();
    let mut images = reversed(images);
    let mut i: usize = 0;
    assert(all_images.take(0) =~= Seq::<Image>::empty());
    while i < n_images
        invariant
            n_images == all_images.len(),
            i <= n_images,
            images@.len() == n_images - i,
            forall|j: int| 0 <= j < images@.len() ==> #[trigger] images@[j] == all_images[n_images - 1 - j],
            forall|id: i64|
                #[trigger] by_entry@.contains_key(id) <==> images_of_entry(all_images.take(i as int), id).len()
                    > 0,
            forall|id: i64|
                #[trigger] by_entry@.contains_key(id) ==> by_entry@[id]@ == images_of_entry(
                    all_images.take(i as int),
                    id,
                ),
        decreases n_images - i,
    {
        let image = images.pop().unwrap();
        assert(image == all_images[i as int]);
        let id = image.entry_id;
        let mut list = match by_entry.remove(&id) {
            Some(v) => v,
            None => Vec::new(),
        };
        list.push(image);
        by_entry.insert(id, list);
        proof {
            assert forall|x: i64|
                #[trigger] images_of_entry(all_images.take(i + 1), x) == (if all_images[i as int].entry_id
                    == x {
                    images_of_entry(all_images.take(i as int), x).push(all_images[i as int])
                } else {
                    images_of_entry(all_images.take(i as int), x)
                }) by {
                lemma_images_of_entry_step(all_images, i as int, x);
            }
        }
        i = i + 1;
    }
    assert(all_images.take(n_images as int) =~= all_images);
    let mut days: Vec<Day> = Vec::new();
    let n_entries = entries.len();
    let mut entries = reversed(entries);
    let mut k: usize = 0;
    while k < n_entries
        invariant
            n_entries == all_entries.len(),
            k <= n_entries,
            entries@.len() == n_entries - k,
            forall|j: int|
                0 <= j < entries@.len() ==> #[trigger] entries@[j] == all_entries[n_entries - 1 - j],
            forall|id: i64|
                #[trigger] by_entry@.contains_key(id) <==> (images_of_entry(all_images, id).len() > 0
                    && forall|j: int| 0 <= j < k ==> all_entries[j].id != id),
            forall|id: i64|
                #[trigger] by_entry@.contains_key(id) ==> by_entry@[id]@ == images_of_entry(
                    all_images,
                    id,
                ),
            day_entries(days@).len() == k,
            forall|j: int|
                0 <= j < k ==> {
                    &&& (#[trigger] day_entries(days@)[j]).entry == all_entries[j]
                    &&& day_entries(days@)[j].images@ == attached_images(all_entries, all_images, j)
                },
            forall|d: int|
                0 <= d < days@.len() ==> {
                    &&& (#[trigger] days@[d]).entries@.len() > 0
                    &&& forall|e: int|
                        0 <= e < days@[d].entries@.len() ==> (#[trigger] days@[d].entries@[e]).entry.local_date@
                            == days@[d].local_date@
                },
            forall|d: int|
                0 < d < days@.len() ==> (#[trigger] days@[d]).local_date@ != days@[d - 1].local_date@,
        decreases n_entries - k,
    {
        let entry = entries.pop().unwrap();
        assert(entry == all_entries[k as int]);
        let ghost removed_id = entry.id;
        let attached = match by_entry.remove(&entry.id) {
            Some(v) => v,
            None => Vec::new(),
        };
        proof {
            if first_with_id(all_entries, k as int) {
                if images_of_entry(all_images, removed_id).len() == 0 {
                    assert(attached@ =~= images_of_entry(all_images, removed_id));
                }
            } else {
                // An earlier entry with this id already took its photos.
                let j = choose|j: int| 0 <= j < k && all_entries[j].id == all_entries[k as int].id;
                assert(all_entries[j].id == removed_id);
            }
            assert(attached@ =~= attached_images(all_entries, all_images, k as int));
        }
        let local_date = entry.local_date.clone();
        let view = EntryView { entry, images: attached };
        let ghost old_days = days@;
        let n = days.len();
        if n > 0 && days[n - 1].local_date == local_date {
            let mut day = days.pop().unwrap();
            day.entries.push(view);
            days.push(day);
            proof {
                let last = old_days.last();
                assert(old_days.drop_last().push(last) =~= old_days);
                lemma_day_entries_push(old_days.drop_last(), last);
                lemma_day_entries_push(old_days.drop_last(), day);
                assert(days@ =~= old_days.drop_last().push(day));
                assert(day_entries(days@) =~= day_entries(old_days).push(view));
            }
        } else {
            let mut es: Vec<EntryView> = Vec::new();
            es.push(view);
            let day = Day { local_date, entries: es };
            days.push(day);
            proof {
                lemma_day_entries_push(old_days, day);
                assert(day_entries(days@) =~= day_entries(old_days).push(view));
            }
        }
        k = k + 1;
    }
    days
}

impl DiaryView {
    /// A diary page's model from the rows read for it: the diary, its
    /// entries ordered by day, and the photos of those entries.
    pub fn from_rows(diary: Diary, entries: Vec<Entry>, images: Vec<Image>) -> (r: DiaryView)
        ensures
            r.diary == diary,
            grouped_into_days(r.days@, entries@, images@),
            (forall|a: int, b: int|
                0 <= a < b < entries@.len() ==> (#[trigger] entries@[a]).id != (
                #[trigger] entries@[b]).id) ==> forall|k: int|
                0 <= k < entries@.len() ==> (#[trigger] day_entries(r.days@)[k]).images@
                    == images_of_entry(images@, entries@[k].id),
    {
        let ghost given_entries = entries@;
        let ghost given_images = images@;
        let r = DiaryView { diary, days: group_into_days(entries, images) };
        proof {
            if forall|a: int, b: int|
                0 <= a < b < given_entries.len() ==> (#[trigger] given_entries[a]).id != (
                #[trigger] given_entries[b]).id {
                assert forall|k: int| 0 <= k < given_entries.len() implies (#[trigger] day_entries(
                    r.days@,
                )[k]).images@ == images_of_entry(given_images, given_entries[k].id) by {
                    law_distinct_entries_get_their_photos(r.days@, given_entries, given_images, k);
                }
            }
        }
        r
    }
}


/// Reads a wall-clock time as written in a diary's time zone, such as
/// `2026-01-02T00:30`, and returns its Unix time in seconds. An unreadable
/// time or an unknown zone is a `Time` error.
pub fn timestamp_from_local(timezone: &str, local: &str) -> (r: Result<i64, Error>)
    ensures
        match unix_seconds_of_civil(timezone@, local@) {
            Some(s) => r == Ok::<i64, Error>(s),
            None => r matches Err(Error::Time(_)),
        },
{
    match jiff_civil_to_unix(timezone, local) {
        Ok(s) => Ok(s),
        Err(message) => Err(Error::Time(message)),
    }
}

/// The calendar day, in the diary's time zone, that an entry made at Unix
/// time `at` belongs to. An unknown zone or an out-of-range time is a `Time`
/// error.
pub fn local_date_of(timezone: &str, at: i64) -> (r: Result<String, Error>)
    ensures
        match civil_date_of_unix(timezone@, at) {
            Some(d) => r matches Ok(s) && s@ == d,
            None => r matches Err(Error::Time(_)),
        },
{
    match jiff_unix_to_civil_date(timezone, at) {
        Ok(d) => Ok(d),
        Err(message) => Err(Error::Time(message)),
    }
}

/// Every photo of a new entry names a blob hash and its blob was found.
pub open spec fn all_found(images: Seq<NewImage>, found: Seq<bool>) -> bool {
    forall|i: int| 0 <= i < images.len() ==> is_blob_hash_spec((#[trigger] images[i]).hash@) && found[i]
}

/// Looks up the blob of every photo of a new entry, in order. A name that is
/// not a blob hash is not found, without touching the disk; for the others
/// the disk decides.
pub fn find_entry_blobs(images: &ImageService, entry: &NewEntry) -> (found: Vec<bool>)
    ensures
        found@.len() == entry.images@.len(),
        forall|i: int|
            0 <= i < found@.len() ==> #[trigger] found@[i] ==> is_blob_hash_spec(
                entry.images@[i].hash@,
            ),
{
    let mut found: Vec<bool> = Vec::new();
    let mut i: usize = 0;
    while i < entry.images.len()
        invariant
            i <= entry.images@.len(),
            found@.len() == i,
            forall|j: int|
                0 <= j < i ==> #[trigger] found@[j] ==> is_blob_hash_spec(entry.images@[j].hash@),
        decreases entry.images@.len() - i,
    {
        found.push(images.blob_exists(entry.images[i].hash.as_str()));
        i = i + 1;
    }
    found
}

/// Decides on the photos of a new entry from the lookups of their blobs:
/// the entry may be written exactly when every photo names a blob hash whose
/// blob was found; otherwise it is refused as `NotFound`.
pub fn check_found_images(entry: &NewEntry, found: &Vec<bool>) -> (r: Result<(), Error>)
    requires
        found@.len() == entry.images@.len(),
    ensures
        r is Ok <==> all_found(entry.images@, found@),
        r is Err ==> r == Err::<(), Error>(Error::NotFound),
{
    let mut i: usize = 0;
    while i < found.len()
        invariant
            found@.len() == entry.images@.len(),
            i <= found@.len(),
            forall|j: int|
                0 <= j < i ==> is_blob_hash_spec((#[trigger] entry.images@[j]).hash@) && found@[j],
        decreases found@.len() - i,
    {
        if !found[i] || !is_blob_hash(entry.images[i].hash.as_str()) {
            assert(!(is_blob_hash_spec(entry.images@[i as int].hash@) && found@[i as int]));
            return Err(Error::NotFound);
        }
        i = i + 1;
    }
    Ok(())
}

/// Checks the photos of a new entry before anything is written: each must
/// name a blob that exists, otherwise the entry is refused as `NotFound`.
/// Hostile names such as paths are refused without touching the disk, and an
/// entry without photos always passes.
pub fn check_entry_images(images: &ImageService, entry: &NewEntry) -> (r: Result<(), Error>)
    ensures
        entry.images@.len() == 0 ==> r is Ok,
        r is Err ==> r == Err::<(), Error>(Error::NotFound),
        (exists|i: int|
            0 <= i < entry.images@.len() && !is_blob_hash_spec((#[trigger] entry.images@[i]).hash@))
            ==> r is Err,
        exists|found: Seq<bool>|
            {
                &&& found.len() == entry.images@.len()
                &&& forall|i: int|
                    0 <= i < found.len() ==> #[trigger] found[i] ==> is_blob_hash_spec(
                        entry.images@[i].hash@,
                    )
                &&& (r is Ok <==> #[trigger] all_found(entry.images@, found))
            },
{
    let found = find_entry_blobs(images, entry);
    let r = check_found_images(entry, &found);
    proof {
        if exists|i: int|
            0 <= i < entry.images@.len() && !is_blob_hash_spec((#[trigger] entry.images@[i]).hash@) {
            let i = choose|i: int|
                0 <= i < entry.images@.len() && !is_blob_hash_spec(
                    (#[trigger] entry.images@[i]).hash@,
                );
            assert(!(is_blob_hash_spec(entry.images@[i].hash@) && found@[i]));
        }
        assert(r is Ok <==> all_found(entry.images@, found@));
    }
    r
}

/// A photo of an entry as it is written: its blob, size, caption and place.
#[derive(Debug)]
pub struct PreparedImage {
    pub hash: String,
    pub width: i64,
    pub height: i64,
    pub position: i64,
    pub alt: Option<String>,
}

/// An entry as it is written: the new entry with the calendar day it falls
/// on in the diary's time zone, and its photos numbered in order.
#[derive(Debug)]
pub struct PreparedEntry {
    pub occurred_at: i64,
    pub local_date: String,
    pub text: Option<String>,
    pub images: Vec<PreparedImage>,
}

/// The outcome of preparing a new entry, given the lookups of its blobs: the
/// entry is refused as `NotFound` unless every photo names a blob that was
/// found, then as a `Time` error when its time has no date in the diary's
/// zone; otherwise it is prepared.
pub open spec fn prepared_as_stated(
    timezone: Seq<char>,
    entry: NewEntry,
    found: Seq<bool>,
    r: Result<PreparedEntry, Error>,
) -> bool {
    &&& (r is Ok <==> all_found(entry.images@, found) && civil_date_of_unix(
        timezone,
        entry.occurred_at,
    ) is Some)
    &&& !all_found(entry.images@, found) ==> r == Err::<PreparedEntry, Error>(Error::NotFound)
    &&& all_found(entry.images@, found) && civil_date_of_unix(timezone, entry.occurred_at) is None
        ==> (r matches Err(Error::Time(_)))
    &&& (r matches Ok(p) ==> {
        &&& p.occurred_at == entry.occurred_at
        &&& p.local_date@ == civil_date_of_unix(timezone, entry.occurred_at).unwrap()
        &&& p.text == entry.text
        &&& p.images@.len() == entry.images@.len()
        &&& forall|i: int|
            0 <= i < p.images@.len() ==> {
                &&& is_blob_hash_spec((#[trigger] p.images@[i]).hash@)
                &&& p.images@[i].hash == entry.images@[i].hash
                &&& p.images@[i].width == entry.images@[i].width as i64
                &&& p.images@[i].height == entry.images@[i].height as i64
                &&& p.images@[i].position == i
                &&& p.images@[i].alt == entry.images@[i].alt
            }
    })
}

/// Prepares a new entry of a diary in time zone `timezone`, given whether the
/// blob of each of its photos was found: the day it belongs to is its time
/// read in the diary's zone, and its photos keep their order, numbered from 0.
pub fn prepare_found_entry(timezone: &str, entry: NewEntry, found: &Vec<bool>) -> (r: Result<
    PreparedEntry,
    Error,
>)
    requires
        found@.len() == entry.images@.len(),
        entry.images@.len() <= i64::MAX,
    ensures
        prepared_as_stated(timezone@, entry, found@, r),
{
    match check_found_images(&entry, found) {
        Ok(()) => {},
        Err(e) => return Err(e),
    }
    let local_date = match local_date_of(timezone, entry.occurred_at) {
        Ok(d) => d,
        Err(e) => return Err(e),
    };
    let ghost given = entry.images@;
    let NewEntry { occurred_at, text, images: new_images } = entry;
    let n = new_images.len();
    let mut pending = reversed(new_images);
    let mut out: Vec<PreparedImage> = Vec::new();
    let mut i: usize = 0;
    while i < n
        invariant
            n == given.len(),
            n <= i64::MAX,
            i <= n,
            pending@.len() == n - i,
            forall|j: int| 0 <= j < pending@.len() ==> #[trigger] pending@[j] == given[n - 1 - j],
            forall|j: int| 0 <= j < n ==> is_blob_hash_spec((#[trigger] given[j]).hash@),
            out@.len() == i,
            forall|j: int|
                0 <= j < i ==> {
                    &&& is_blob_hash_spec((#[trigger] out@[j]).hash@)
                    &&& out@[j].hash == given[j].hash
                    &&& out@[j].width == given[j].width as i64
                    &&& out@[j].height == given[j].height as i64
                    &&& out@[j].position == j
                    &&& out@[j].alt == given[j].alt
                },
        decreases n - i,
    {
        let image = pending.pop().unwrap();
        assert(image == given[i as int]);
        out.push(
            PreparedImage {
                hash: image.hash,
                width: image.width as i64,
                height: image.height as i64,
                position: i as i64,
                alt: image.alt,
            },
        );
        i = i + 1;
    }
    let r = Ok(PreparedEntry { occurred_at, local_date, text, images: out });
    assert(out@.len() == given.len());
    r
}


/// Checks a new entry of a diary in time zone `timezone` and prepares what is
/// written for it. Every photo must name an existing blob, or the entry is
/// refused as `NotFound` before anything is written; the day it belongs to is
/// its time read in the diary's zone; its photos keep their order, numbered
/// from 0. An entry without photos succeeds exactly when its time has a date
/// in the zone.
pub fn prepare_entry(timezone: &str, images: &ImageService, entry: NewEntry) -> (r: Result<
    PreparedEntry,
    Error,
>)
    requires
        entry.images@.len() <= i64::MAX,
    ensures
        entry.images@.len() == 0 ==> (r is Ok <==> civil_date_of_unix(
            timezone@,
            entry.occurred_at,
        ) is Some),
        (exists|i: int|
            0 <= i < entry.images@.len() && !is_blob_hash_spec((#[trigger] entry.images@[i]).hash@))
            ==> r == Err::<PreparedEntry, Error>(Error::NotFound),
        exists|found: Seq<bool>|
            {
                &&& found.len() == entry.images@.len()
                &&& forall|i: int|
                    0 <= i < found.len() ==> #[trigger] found[i] ==> is_blob_hash_spec(
                        entry.images@[i].hash@,
                    )
                &&& #[trigger] prepared_as_stated(timezone@, entry, found, r)
            },
{
    let found = find_entry_blobs(images, &entry);
    let ghost given = entry;
    let r = prepare_found_entry(timezone, entry, &found);
    proof {
        if given.images@.len() == 0 {
            assert(all_found(given.images@, found@));
        }
        if exists|i: int|
            0 <= i < given.images@.len() && !is_blob_hash_spec((#[trigger] given.images@[i]).hash@) {
            let i = choose|i: int|
                0 <= i < given.images@.len() && !is_blob_hash_spec(
                    (#[trigger] given.images@[i]).hash@,
                );
            assert(!(is_blob_hash_spec(given.images@[i].hash@) && found@[i]));
        }
    }
    r
}

/// With distinct entry ids, as the primary key of the entry table
/// guarantees, every entry of a grouped diary is shown with exactly the photos
/// that belong to it, in their order.
pub proof fn law_distinct_entries_get_their_photos(
    days: Seq<Day>,
    entries: Seq<Entry>,
    images: Seq<Image>,
    k: int,
)
    requires
        grouped_into_days(days, entries, images),
        forall|a: int, b: int|
            0 <= a < b < entries.len() ==> (#[trigger] entries[a]).id != (#[trigger] entries[b]).id,
        0 <= k < entries.len(),
    ensures
        day_entries(days)[k].entry == entries[k],
        day_entries(days)[k].images@ == images_of_entry(images, entries[k].id),
{
    assert(first_with_id(entries, k));
}

proof fn lemma_day_entries_prefix(days: Seq<Day>, d: int)
    requires
        0 <= d <= days.len(),
    ensures
        day_entries(days.take(d)).len() <= day_entries(days).len(),
        forall|x: int|
            0 <= x < day_entries(days.take(d)).len() ==> day_entries(days)[x] == day_entries(
                days.take(d),
            )[x],
    decreases days.len() - d,
{
    if d < days.len() {
        lemma_day_entries_prefix(days, d + 1);
        assert(days.take(d + 1).drop_last() =~= days.take(d));
    } else {
        assert(days.take(d) =~= days);
    }
}

proof fn lemma_day_entry_at(days: Seq<Day>, d: int, e: int)
    requires
        0 <= d < days.len(),
        0 <= e < days[d].entries@.len(),
    ensures
        day_entries(days.take(d + 1)).len() == day_entries(days.take(d)).len()
            + days[d].entries@.len(),
        day_entries(days.take(d)).len() + e < day_entries(days).len(),
        day_entries(days)[day_entries(days.take(d)).len() + e] == days[d].entries@[e],
{
    lemma_day_entries_prefix(days, d + 1);
    assert(days.take(d + 1).drop_last() =~= days.take(d));
}

/// When the rows keep each date together, as rows ordered by date do, the
/// grouping has one day per date: no two days share a date.
pub proof fn law_contiguous_dates_give_each_date_once(
    days: Seq<Day>,
    entries: Seq<Entry>,
    images: Seq<Image>,
)
    requires
        grouped_into_days(days, entries, images),
        forall|i: int, j: int, k: int|
            0 <= i < j < k < entries.len() && (#[trigger] entries[i]).local_date@ == (
            #[trigger] entries[k]).local_date@ ==> (#[trigger] entries[j]).local_date@
                == entries[i].local_date@,
    ensures
        forall|a: int, b: int|
            0 <= a < b < days.len() ==> (#[trigger] days[a]).local_date@ != (
            #[trigger] days[b]).local_date@,
{
    assert forall|a: int, b: int| 0 <= a < b < days.len() implies (#[trigger] days[a]).local_date@
        != (#[trigger] days[b]).local_date@ by {
        if b != a + 1 {
            let flat = day_entries(days);
            let sa = day_entries(days.take(a)).len() as int;
            let sb1 = day_entries(days.take(b - 1)).len() as int;
            let sb = day_entries(days.take(b)).len() as int;
            lemma_day_entry_at(days, a, 0);
            lemma_day_entry_at(days, b, 0);
            let last = days[b - 1].entries@.len() - 1;
            lemma_day_entry_at(days, b - 1, last);
            lemma_day_entries_prefix(days.take(b - 1), a + 1);
            assert(days.take(b - 1).take(a + 1) =~= days.take(a + 1));
            let sa1 = day_entries(days.take(a + 1)).len() as int;
            assert(sa < sa1 && sa1 <= sb1);
            let i = sa;
            let j = sb1 + last;
            let k = sb;
            assert(j + 1 == k);
            assert(flat[i].entry == entries[i]);
            assert(flat[j].entry == entries[j]);
            assert(flat[k].entry == entries[k]);
            assert(days[a].entries@[0].entry.local_date@ == days[a].local_date@);
            assert(days[b].entries@[0].entry.local_date@ == days[b].local_date@);
            assert(days[b - 1].entries@[last].entry.local_date@ == days[b - 1].local_date@);
            assert(days[b].local_date@ != days[b - 1].local_date@);
            if days[a].local_date@ == days[b].local_date@ {
                assert(entries[i].local_date@ == entries[k].local_date@);
                assert(entries[j].local_date@ == entries[i].local_date@);
            }
        }
    }
}

} // verus!
