//! The rendering model of diary pages: every photo with its `srcset` already
//! built, so templates hold no logic about widths.
use vstd::prelude::*;

use crate::diary::{Day, Diary, DiaryView, EntryView, Image};
use crate::images::{
    ladder, law_ladder_never_upscales, lemma_ladder_cases, variant_url, widest_variant, ImageService,
};
use crate::text::{decimal, decimal_string, parse_hex_u32, parse_hex_u32_short};

verus! {

/// A photo ready for a template.
pub struct RenderedImage {
    pub id: i64,
    /// 0, 1 or 2: one of three tilts, taken from the content hash so that a
    /// photo keeps its angle across reorders, re-uploads and page loads.
    pub tilt: u32,
    pub src: String,
    pub srcset: String,
    pub width: i64,
    pub height: i64,
    pub alt: String,
}

pub struct RenderedEntry {
    pub id: i64,
    pub text: Option<String>,
    pub images: Vec<RenderedImage>,
}

pub struct RenderedDay {
    pub local_date: String,
    pub entries: Vec<RenderedEntry>,
}

/// The login page; `failed` after a refused login.
pub struct LoginPage {
    pub failed: bool,
}

/// The admin's list of diaries.
pub struct AdminIndexPage {
    pub diaries: Vec<Diary>,
}

/// A diary as the admin edits it.
pub struct AdminDiaryPage {
    pub diary: Diary,
    pub description: String,
    pub days: Vec<RenderedDay>,
}

/// A diary as a share link shows it.
pub struct DiaryPage {
    pub diary: Diary,
    pub days: Vec<RenderedDay>,
}

/// The tilt of a photo: the first eight characters of its hash read as a
/// hexadecimal number (as `u32::from_str_radix` reads them), modulo 3; 0 when
/// the hash is shorter or those characters are not such a number.
pub open spec fn tilt_of(hash: Seq<char>) -> u32 {
    if hash.len() >= 8 {
        match parse_hex_u32(hash.take(8)) {
            Some(v) => (v % 3) as u32,
            None => 0,
        }
    } else {
        0
    }
}

/// One `srcset` candidate: a variant's URL and its width descriptor.
pub open spec fn srcset_candidate(hash: Seq<char>, width: u32) -> Seq<char> {
    variant_url(hash, width) + " "@ + decimal(width as nat) + "w"@
}

/// The candidates of the given widths, joined by `, `.
pub open spec fn srcset_of(hash: Seq<char>, widths: Seq<u32>) -> Seq<char>
    decreases widths.len(),
{
    if widths.len() == 0 {
        Seq::empty()
    } else if widths.len() == 1 {
        srcset_candidate(hash, widths[0])
    } else {
        srcset_of(hash, widths.drop_last()) + ", "@ + srcset_candidate(hash, widths.last())
    }
}

/// The alt text of a photo: its caption, or empty, the correct markup for a
/// photo without one.
pub open spec fn alt_text(alt: Option<String>) -> Seq<char> {
    match alt {
        Some(a) => a@,
        None => Seq::empty(),
    }
}

/// `r` renders `image`: the widest variant is the fallback `src`, and the
/// `srcset` offers every variant.
pub open spec fn renders_image(r: RenderedImage, image: Image) -> bool {
    let w = image.width as u32;
    &&& r.id == image.id
    &&& r.tilt == tilt_of(image.hash@)
    &&& r.src@ == variant_url(image.hash@, widest_variant(w))
    &&& r.srcset@ == srcset_of(image.hash@, ladder(w))
    &&& r.width == image.width
    &&& r.height == image.height
    &&& r.alt@ == alt_text(image.alt)
}

pub open spec fn renders_entry(r: RenderedEntry, e: EntryView) -> bool {
    &&& r.id == e.entry.id
    &&& r.text == e.entry.text
    &&& r.images@.len() == e.images@.len()
    &&& forall|i: int| 0 <= i < r.images@.len() ==> renders_image(#[trigger] r.images@[i], e.images@[i])
}

pub open spec fn renders_day(r: RenderedDay, d: Day) -> bool {
    &&& r.local_date@ == d.local_date@
    &&& r.entries@.len() == d.entries@.len()
    &&& forall|i: int| 0 <= i < r.entries@.len() ==> renders_entry(#[trigger] r.entries@[i], d.entries@[i])
}

/// Texts joined by a separator, first to last: every part once, in order,
/// with the separator between two neighbours and nowhere else.
pub open spec fn joined(parts: Seq<Seq<char>>, sep: Seq<char>) -> Seq<char>
    decreases parts.len(),
{
    if parts.len() == 0 {
        Seq::empty()
    } else if parts.len() == 1 {
        parts[0]
    } else {
        parts[0] + sep + joined(parts.drop_first(), sep)
    }
}

proof fn lemma_joined_push(parts: Seq<Seq<char>>, sep: Seq<char>, p: Seq<char>)
    requires
        parts.len() >= 1,
    ensures
        joined(parts.push(p), sep) == joined(parts, sep) + sep + p,
    decreases parts.len(),
{
    let q = parts.push(p);
    assert(q[0] == parts[0]);
    if parts.len() == 1 {
        assert(q.drop_first() =~= seq![p]);
        assert(joined(seq![p], sep) == p);
    } else {
        assert(q.drop_first() =~= parts.drop_first().push(p));
        lemma_joined_push(parts.drop_first(), sep, p);
        assert(parts[0] + sep + (joined(parts.drop_first(), sep) + sep + p) =~= (parts[0] + sep
            + joined(parts.drop_first(), sep)) + sep + p);
    }
}

/// A `srcset` holds one candidate per width, each a variant's URL and its
/// width descriptor, in the order of the widths, joined by `, `.
pub proof fn law_srcset_has_a_candidate_per_width(hash: Seq<char>, widths: Seq<u32>)
    ensures
        srcset_of(hash, widths) == joined(
            widths.map_values(|x: u32| srcset_candidate(hash, x)),
            ", "@,
        ),
    decreases widths.len(),
{
    let c = widths.map_values(|x: u32| srcset_candidate(hash, x));
    if widths.len() == 0 {
        assert(c.len() == 0);
    } else if widths.len() == 1 {
        assert(c[0] == srcset_candidate(hash, widths[0]));
    } else {
        let rest = widths.drop_last();
        law_srcset_has_a_candidate_per_width(hash, rest);
        let d = rest.map_values(|x: u32| srcset_candidate(hash, x));
        assert(c =~= d.push(srcset_candidate(hash, widths.last())));
        lemma_joined_push(d, ", "@, srcset_candidate(hash, widths.last()));
    }
}

/// A rendered photo offers every variant of its ladder in its `srcset`,
/// narrowest first: a photo at most 400 pixels wide only its own width, and
/// one wider than 2400 pixels, such as an ordinary phone photo, all four
/// rungs.
pub proof fn law_rendered_srcset_offers_every_variant(r: RenderedImage, image: Image)
    requires
        renders_image(r, image),
    ensures
        r.srcset@ == joined(
            ladder(image.width as u32).map_values(|x: u32| srcset_candidate(image.hash@, x)),
            ", "@,
        ),
        image.width as u32 <= 400 ==> r.srcset@ == srcset_candidate(image.hash@, image.width as u32),
        400 < image.width as u32 <= 800 ==> r.srcset@ == srcset_candidate(image.hash@, 400) + ", "@
            + srcset_candidate(image.hash@, image.width as u32),
        800 < image.width as u32 <= 1600 ==> r.srcset@ == srcset_candidate(image.hash@, 400) + ", "@
            + srcset_candidate(image.hash@, 800) + ", "@ + srcset_candidate(
            image.hash@,
            image.width as u32,
        ),
        1600 < image.width as u32 <= 2400 ==> r.srcset@ == srcset_candidate(image.hash@, 400)
            + ", "@ + srcset_candidate(image.hash@, 800) + ", "@ + srcset_candidate(image.hash@, 1600)
            + ", "@ + srcset_candidate(image.hash@, image.width as u32),
        image.width as u32 > 2400 ==> r.srcset@ == srcset_candidate(image.hash@, 400) + ", "@
            + srcset_candidate(image.hash@, 800) + ", "@ + srcset_candidate(image.hash@, 1600) + ", "@
            + srcset_candidate(image.hash@, 2400),
{
    let w = #[verifier::truncate] (image.width as u32);
    let h = image.hash@;
    law_srcset_has_a_candidate_per_width(h, ladder(w));
    lemma_ladder_cases(w);
    let l = ladder(w);
    let top = l.last();
    if w <= 400 {
    } else if w <= 800 {
        assert(l.drop_last() =~= seq![400u32]);
        assert(srcset_of(h, l) == srcset_of(h, l.drop_last()) + ", "@ + srcset_candidate(h, top));
    } else if w <= 1600 {
        assert(l.drop_last() =~= seq![400u32, 800u32]);
        assert(l.drop_last().drop_last() =~= seq![400u32]);
        assert(srcset_of(h, l.drop_last()) == srcset_of(h, l.drop_last().drop_last()) + ", "@
            + srcset_candidate(h, 800));
        assert(srcset_of(h, l) == srcset_of(h, l.drop_last()) + ", "@ + srcset_candidate(h, top));
    } else {
        assert(l.drop_last() =~= seq![400u32, 800u32, 1600u32]);
        assert(l.drop_last().drop_last() =~= seq![400u32, 800u32]);
        let pair = l.drop_last().drop_last();
        assert(pair.drop_last() =~= seq![400u32]);
        assert(srcset_of(h, pair.drop_last()) == srcset_candidate(h, 400));
        assert(pair.last() == 800u32);
        assert(srcset_of(h, pair) == srcset_candidate(h, 400) + ", "@ + srcset_candidate(h, 800));
        assert(srcset_of(h, l.drop_last()) == srcset_of(h, l.drop_last().drop_last()) + ", "@
            + srcset_candidate(h, 1600));
        assert(srcset_of(h, l) == srcset_of(h, l.drop_last()) + ", "@ + srcset_candidate(h, top));
        assert(top == (if w <= 2400 {
            w
        } else {
            2400u32
        }));
    }
}

/// The tilt of the photo with content hash `hash`.
pub fn tilt_for(hash: &str) -> (r: u32)
    ensures
        r == tilt_of(hash@),
        r < 3,
{
    let n = hash.unicode_len();
    if n < 8 {
        return 0;
    }
    let mut prefix: Vec<char> = Vec::new();
    let mut i: usize = 0;
    while i < 8
        invariant
            n == hash@.len(),
            n >= 8,
            i <= 8,
            prefix@ == hash@.take(i as int),
        decreases 8 - i,
    {
        prefix.push(hash.get_char(i));
        i = i + 1;
        assert(prefix@ =~= hash@.take(i as int));
    }
    match parse_hex_u32_short(&prefix) {
        Some(v) => v % 3,
        None => 0,
    }
}

fn clone_text(text: &Option<String>) -> (r: Option<String>)
    ensures
        r == *text,
{
    match text {
        Some(t) => Some(t.clone()),
        None => None,
    }
}

/// Renders one photo.
pub fn render_image(image: &Image, images: &ImageService) -> (r: RenderedImage)
    ensures
        renders_image(r, *image),
{
    let w = image.width as u32;
    let sources = images.derive_sourceset(image.hash.as_str(), w);
    proof {
        law_ladder_never_upscales(w);
    }
    let mut srcset = String::new();
    let mut i: usize = 0;
    while i < sources.len()
        invariant
            sources@.len() == ladder(w).len(),
            forall|j: int|
                0 <= j < sources@.len() ==> {
                    &&& (#[trigger] sources@[j]).width == ladder(w)[j]
                    &&& sources@[j].url@ == variant_url(image.hash@, ladder(w)[j])
                },
            i <= sources@.len(),
            srcset@ == srcset_of(image.hash@, ladder(w).take(i as int)),
        decreases sources@.len() - i,
    {
        let ghost before = srcset@;
        if i > 0 {
            srcset.append(", ");
        }
        srcset.append(sources[i].url.as_str());
        srcset.append(" ");
        let digits = decimal_string(sources[i].width);
        srcset.append(digits.as_str());
        srcset.append("w");
        proof {
            let ws = ladder(w).take(i + 1);
            assert(ws.drop_last() =~= ladder(w).take(i as int));
            assert(ws.last() == ladder(w)[i as int]);
            if i == 0 {
                assert(srcset@ =~= srcset_candidate(image.hash@, ws[0]));
            } else {
                assert(srcset@ =~= before + ", "@ + srcset_candidate(image.hash@, ws.last()));
            }
        }
        i = i + 1;
    }
    assert(ladder(w).take(ladder(w).len() as int) =~= ladder(w));
    let last = sources.len() - 1;
    let src = sources[last].url.clone();
    let alt = match &image.alt {
        Some(a) => a.clone(),
        None => String::new(),
    };
    RenderedImage {
        id: image.id,
        tilt: tilt_for(image.hash.as_str()),
        src,
        srcset,
        width: image.width,
        height: image.height,
        alt,
    }
}

/// Renders one entry with its photos.
pub fn render_entry(entry: &EntryView, images: &ImageService) -> (r: RenderedEntry)
    ensures
        renders_entry(r, *entry),
{
    let mut out: Vec<RenderedImage> = Vec::new();
    let mut i: usize = 0;
    while i < entry.images.len()
        invariant
            i <= entry.images@.len(),
            out@.len() == i,
            forall|j: int| 0 <= j < i ==> renders_image(#[trigger] out@[j], entry.images@[j]),
        decreases entry.images@.len() - i,
    {
        out.push(render_image(&entry.images[i], images));
        i = i + 1;
    }
    RenderedEntry { id: entry.entry.id, text: clone_text(&entry.entry.text), images: out }
}

/// Renders one day.
pub fn render_day(day: &Day, images: &ImageService) -> (r: RenderedDay)
    ensures
        renders_day(r, *day),
{
    let mut out: Vec<RenderedEntry> = Vec::new();
    let mut i: usize = 0;
    while i < day.entries.len()
        invariant
            i <= day.entries@.len(),
            out@.len() == i,
            forall|j: int| 0 <= j < i ==> renders_entry(#[trigger] out@[j], day.entries@[j]),
        decreases day.entries@.len() - i,
    {
        out.push(render_entry(&day.entries[i], images));
        i = i + 1;
    }
    RenderedDay { local_date: day.local_date.clone(), entries: out }
}

/// The rendering model of a diary's days. This is where the diary and image
/// services meet: the rows come from one, the URLs from the other.
pub fn render_days(view: &DiaryView, images: &ImageService) -> (r: Vec<RenderedDay>)
    ensures
        r@.len() == view.days@.len(),
        forall|d: int| 0 <= d < r@.len() ==> renders_day(#[trigger] r@[d], view.days@[d]),
{
    let mut out: Vec<RenderedDay> = Vec::new();
    let mut i: usize = 0;
    while i < view.days.len()
        invariant
            i <= view.days@.len(),
            out@.len() == i,
            forall|j: int| 0 <= j < i ==> renders_day(#[trigger] out@[j], view.days@[j]),
        decreases view.days@.len() - i,
    {
        out.push(render_day(&view.days[i], images));
        i = i + 1;
    }
    out
}

} // verus!
