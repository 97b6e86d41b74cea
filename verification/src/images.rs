//! Content-addressed image blobs: which names are blob hashes, which widths a
//! photo is stored at, the URLs of those variants, and the decisions of the
//! sweep that reclaims unreferenced blobs.
use std::collections::HashSet;
use std::path::PathBuf;

use vstd::prelude::*;

use crate::error::Error;
use crate::raster::{decode_upright, decoded_upright, image_error_text, resize_rgb, resized_rgb};
use crate::text::{decimal, decimal_string};

verus! {

#[verifier::external_type_specification]
#[verifier::external_body]
pub struct ExPathBuf(std::path::PathBuf);

/// The widths generated for every upload, largest last.
pub const WIDTH_LADDER: [u32; 4] = [400, 800, 1600, 2400];

/// The widths generated for every upload, largest last.
pub open spec fn width_ladder() -> Seq<u32> {
    seq![400u32, 800u32, 1600u32, 2400u32]
}

/// The largest width a photo `original_width` wide is stored at: the original
/// width, capped at the widest rung of the ladder.
pub open spec fn widest_variant(original_width: u32) -> u32 {
    if original_width < 2400 {
        original_width
    } else {
        2400
    }
}

/// The widths a photo `original_width` wide is stored at: every rung below
/// the widest variant, then the widest variant itself.
pub open spec fn ladder(original_width: u32) -> Seq<u32> {
    let widest = widest_variant(original_width);
    width_ladder().filter(|w: u32| w < widest).push(widest)
}

/// The height of a variant `dst_width` wide, keeping the aspect ratio of a
/// `src_width` by `src_height` source, rounded down and at least 1, then
/// truncated to 32 bits.
pub open spec fn scaled_height(src_width: u32, src_height: u32, dst_width: u32) -> u32 {
    let h = (src_height as nat * dst_width as nat) / src_width as nat;
    (if h < 1 {
        1
    } else {
        h
    }) as u32
}

/// A lowercase or uppercase ASCII hexadecimal digit.
pub open spec fn is_ascii_hex_digit(c: char) -> bool {
    ('0' <= c && c <= '9') || ('a' <= c && c <= 'f') || ('A' <= c && c <= 'F')
}

/// A digit as lowercase hexadecimal text writes it.
pub open spec fn is_lower_hex_digit(c: char) -> bool {
    ('0' <= c && c <= '9') || ('a' <= c && c <= 'f')
}

/// A name that can be a blob directory: 64 ASCII hexadecimal digits.
pub open spec fn is_blob_hash_spec(name: Seq<char>) -> bool {
    name.len() == 64 && forall|i: int| 0 <= i < name.len() ==> is_ascii_hex_digit(#[trigger] name[i])
}

/// The URL of the variant of blob `hash` that is `width` pixels wide.
pub open spec fn variant_url(hash: Seq<char>, width: u32) -> Seq<char> {
    "/img/"@ + hash + "/"@ + decimal(width as nat) + ".webp"@
}

/// The file name of a variant `width` pixels wide inside its blob directory.
pub open spec fn variant_file_name(width: u32) -> Seq<char> {
    decimal(width as nat) + ".webp"@
}

/// The lowercase hexadecimal BLAKE3 digest of `data`.
pub uninterp spec fn blake3_hex(data: Seq<u8>) -> Seq<char>;

/// Seconds a blob is left alone before the sweep may reclaim it: an upload not
/// yet submitted is referenced only by the open compose form.
pub const GC_MIN_AGE_SECS: u64 = 3600;

/// The largest width or height a decoded upload may have.
pub const MAX_DIMENSION: u32 = 12000;

/// The largest allocation the decoder may make, in bytes.
pub const MAX_ALLOC: u64 = 268435456;

/// Where image blobs live: one directory per blob, named by its hash.
#[derive(Clone)]
pub struct ImageService {
    images_dir: PathBuf,
}

/// A processed upload: its content hash and its dimensions after orientation.
pub struct ImageUpload {
    pub hash: String,
    pub width: u32,
    pub height: u32,
}

/// One variant of a blob, for a `srcset`.
pub struct SourceSetEntry {
    pub url: String,
    pub width: u32,
}

/// One variant to generate for an upload.
pub struct VariantTarget {
    pub width: u32,
    pub height: u32,
    pub file_name: String,
}

/// `Clone` for `PathBuf`, which the derived `Clone` of `ImageService` calls;
/// nothing is stated of the copy.
pub assume_specification[ <std::path::PathBuf as std::clone::Clone>::clone ](p: &PathBuf) -> PathBuf;

/// The path `base` with `name` appended as one more component, as
/// `Path::join` builds it.
pub uninterp spec fn joined_path(base: PathBuf, name: Seq<char>) -> PathBuf;

/// `PathBuf::join`: `base` with `name` appended as one more component; the
/// result depends on the two arguments alone.
#[verifier::external_body]
fn path_join(base: &PathBuf, name: &str) -> (r: PathBuf)
    ensures
        r == joined_path(*base, name@),
{
    base.join(name)
}

/// `Path::is_dir`: whether a directory exists at `path` when the call is made;
/// that depends on the disk, so nothing is stated of the result.
#[verifier::external_body]
fn path_is_dir(path: &PathBuf) -> (r: bool) {
    path.is_dir()
}

/// `blake3::hash` followed by `Hash::to_hex`: the digest of `data` as 64
/// lowercase hexadecimal digits.
#[verifier::external_body]
fn blake3_hex_digest(data: &[u8]) -> (r: String)
    ensures
        r@ == blake3_hex(data@),
        r@.len() == 64,
        forall|i: int|
            0 <= i < 64 ==> ('0' <= #[trigger] r@[i] <= '9') || ('a' <= r@[i] <= 'f'),
{
    blake3::hash(data).to_hex().to_string()
}

/// Whether `set` holds a string whose characters are `text`.
pub open spec fn set_has_text(set: Set<String>, text: Seq<char>) -> bool {
    exists|s: String| set.contains(s) && s@ == text
}

/// `HashSet::contains` on a set of strings, looked up by a string slice.
#[verifier::external_body]
fn set_contains_str(set: &HashSet<String>, name: &str) -> (r: bool)
    ensures
        r == set_has_text(set@, name@),
{
    set.contains(name)
}

pub fn is_ascii_hex_digit_char(c: char) -> (r: bool)
    ensures
        r == is_ascii_hex_digit(c),
{
    ('0' <= c && c <= '9') || ('a' <= c && c <= 'f') || ('A' <= c && c <= 'F')
}

/// Whether `name` is a blob hash, so that only directories this service owns
/// are ever looked at or deleted.
pub fn is_blob_hash(name: &str) -> (r: bool)
    ensures
        r == is_blob_hash_spec(name@),
{
    let n = name.unicode_len();
    if n != 64 {
        return false;
    }
    let mut i: usize = 0;
    while i < n
        invariant
            n == name@.len(),
            i <= n,
            forall|j: int| 0 <= j < i ==> is_ascii_hex_digit(#[trigger] name@[j]),
        decreases n - i,
    {
        if !is_ascii_hex_digit_char(name.get_char(i)) {
            return false;
        }
        i = i + 1;
    }
    true
}

proof fn lemma_filter_step(s: Seq<u32>, limit: u32, i: int)
    requires
        0 <= i < s.len(),
    ensures
        s.take(i + 1).filter(|w: u32| w < limit) == (if s[i] < limit {
            s.take(i).filter(|w: u32| w < limit).push(s[i])
        } else {
            s.take(i).filter(|w: u32| w < limit)
        }),
{
    reveal_with_fuel(Seq::filter, 1);
    assert(s.take(i + 1).drop_last() =~= s.take(i));
}

/// The widths a photo is stored at. Steps wider than the original are skipped
/// so it is never upscaled, and nothing past the widest rung is generated.
pub fn ladder_for(original_width: u32) -> (r: Vec<u32>)
    ensures
        r@ == ladder(original_width),
{
    let rungs: [u32; 4] = WIDTH_LADDER;
    assert(rungs@ =~= width_ladder());
    // Two ceilings: anything wider than the source would be upscaling, and
    // anything past the widest rung is more pixels than the layout can use.
    let top = rungs[3];
    let widest = if original_width < top {
        original_width
    } else {
        top
    };
    let mut out: Vec<u32> = Vec::new();
    let mut i: usize = 0;
    assert(rungs@.take(0) =~= Seq::<u32>::empty());
    proof {
        reveal_with_fuel(Seq::filter, 1);
    }
    while i < rungs.len()
        invariant
            rungs@ == width_ladder(),
            widest == widest_variant(original_width),
            i <= rungs@.len(),
            out@ == rungs@.take(i as int).filter(|w: u32| w < widest),
        decreases rungs@.len() - i,
    {
        proof {
            lemma_filter_step(rungs@, widest, i as int);
        }
        if rungs[i] < widest {
            out.push(rungs[i]);
        }
        i = i + 1;
    }
    assert(rungs@.take(4) =~= rungs@);
    out.push(widest);
    out
}

/// The height of a `dst_width` wide variant of a `src_width` by `src_height`
/// source, rounded down and never below one pixel.
pub fn scale_height(src_width: u32, src_height: u32, dst_width: u32) -> (r: u32)
    requires
        src_width > 0,
    ensures
        r == scaled_height(src_width, src_height, dst_width),
{
    let a: u64 = src_height as u64;
    let b: u64 = dst_width as u64;
    assert(a * b <= 0xffff_fffe_0000_0001) by (nonlinear_arith)
        requires
            a <= 0xffff_ffff,
            b <= 0xffff_ffff,
    ;
    let prod: u64 = a * b;
    let h: u64 = prod / src_width as u64;
    let h1: u64 = if h < 1 {
        1
    } else {
        h
    };
    #[verifier::truncate]
    (h1 as u32)
}

/// The URL of the variant of `hash` that is `width` pixels wide.
pub fn variant_url_string(hash: &str, width: u32) -> (r: String)
    ensures
        r@ == variant_url(hash@, width),
{
    let mut url = String::from_str("/img/");
    url.append(hash);
    url.append("/");
    let digits = decimal_string(width);
    url.append(digits.as_str());
    url.append(".webp");
    url
}

/// The file name of the variant `width` pixels wide.
pub fn variant_file_name_string(width: u32) -> (r: String)
    ensures
        r@ == variant_file_name(width),
{
    let mut name = decimal_string(width);
    name.append(".webp");
    name
}

/// The hash an upload is stored under: the BLAKE3 digest of its bytes, which
/// is always a blob hash.
pub fn content_hash(data: &[u8]) -> (r: String)
    ensures
        r@ == blake3_hex(data@),
        is_blob_hash_spec(r@),
        forall|i: int| 0 <= i < r@.len() ==> is_lower_hex_digit(#[trigger] r@[i]),
{
    let r = blake3_hex_digest(data);
    assert forall|i: int| 0 <= i < r@.len() implies is_ascii_hex_digit(#[trigger] r@[i])
        && is_lower_hex_digit(r@[i]) by {
        assert(('0' <= r@[i] <= '9') || ('a' <= r@[i] <= 'f'));
    }
    r
}

/// The variants to generate for a decoded upload `width` by `height` pixels:
/// one per ladder width, each with its scaled height and file name.
pub fn variants_for(width: u32, height: u32) -> (r: Vec<VariantTarget>)
    requires
        width > 0,
    ensures
        r@.len() == ladder(width).len(),
        forall|i: int|
            0 <= i < r@.len() ==> {
                &&& (#[trigger] r@[i]).width == ladder(width)[i]
                &&& r@[i].height == scaled_height(width, height, ladder(width)[i])
                &&& r@[i].file_name@ == variant_file_name(ladder(width)[i])
            },
{
    let widths = ladder_for(width);
    let mut out: Vec<VariantTarget> = Vec::new();
    let mut i: usize = 0;
    while i < widths.len()
        invariant
            width > 0,
            widths@ == ladder(width),
            i <= widths@.len(),
            out@.len() == i,
            forall|j: int|
                0 <= j < i ==> {
                    &&& (#[trigger] out@[j]).width == ladder(width)[j]
                    &&& out@[j].height == scaled_height(width, height, ladder(width)[j])
                    &&& out@[j].file_name@ == variant_file_name(ladder(width)[j])
                },
        decreases widths@.len() - i,
    {
        let w = widths[i];
        let target = VariantTarget {
            width: w,
            height: scale_height(width, height, w),
            file_name: variant_file_name_string(w),
        };
        out.push(target);
        i = i + 1;
    }
    out
}

/// One variant of an upload, resized and ready to encode.
pub struct PreparedVariant {
    pub width: u32,
    pub height: u32,
    pub file_name: String,
    pub rgb: Vec<u8>,
}

/// An upload ready to store: its content hash, its upright size, and its
/// variants, narrowest first.
pub struct PreparedUpload {
    pub hash: String,
    pub width: u32,
    pub height: u32,
    pub variants: Vec<PreparedVariant>,
}

/// `p` is what `bytes` prepare to: stored under the BLAKE3 digest of the
/// bytes, measured upright, with one variant per ladder width, each with its
/// scaled height, file name and a pixel buffer of that size.
pub open spec fn upload_prepared_as(bytes: Seq<u8>, p: PreparedUpload) -> bool {
    &&& decoded_upright(bytes, MAX_DIMENSION, MAX_ALLOC) matches Some((w, h, _)) && w == p.width
        && h == p.height
    &&& p.width > 0
    &&& p.hash@ == blake3_hex(bytes)
    &&& is_blob_hash_spec(p.hash@)
    &&& forall|i: int| 0 <= i < p.hash@.len() ==> is_lower_hex_digit(#[trigger] p.hash@[i])
    &&& p.variants@.len() == ladder(p.width).len()
    &&& forall|i: int|
        0 <= i < p.variants@.len() ==> {
            &&& (#[trigger] p.variants@[i]).width == ladder(p.width)[i]
            &&& p.variants@[i].height == scaled_height(p.width, p.height, ladder(p.width)[i])
            &&& p.variants@[i].file_name@ == variant_file_name(ladder(p.width)[i])
            &&& p.variants@[i].rgb@.len() == p.variants@[i].width * p.variants@[i].height * 3
            &&& p.variants@[i].rgb@ == resized_rgb(
                p.width,
                p.height,
                decoded_upright(bytes, MAX_DIMENSION, MAX_ALLOC).unwrap().2,
                p.variants@[i].width,
                p.variants@[i].height,
            )
        }
}

proof fn lemma_variant_fits(width: u32, height: u32, target: u32)
    requires
        0 < width,
        height <= MAX_DIMENSION,
        target <= width,
        target <= 2400,
    ensures
        target * scaled_height(width, height, target) * 3 <= isize::MAX,
{
    let h = (height as nat * target as nat) / width as nat;
    assert(height as nat * target as nat <= height as nat * width as nat) by (nonlinear_arith)
        requires
            target <= width,
    ;
    assert(h <= height) by (nonlinear_arith)
        requires
            h == (height as nat * target as nat) / width as nat,
            height as nat * target as nat <= height as nat * width as nat,
            width > 0,
    ;
    let s = scaled_height(width, height, target);
    assert(s <= 12000);
    assert(target * s * 3 <= 2400 * 12000 * 3) by (nonlinear_arith)
        requires
            target <= 2400,
            s <= 12000,
    ;
}

/// Prepares an upload for storage: decodes it upright (the EXIF orientation
/// is applied, so the size is what a browser lays out), hashes its bytes, and
/// resizes it to every width of its ladder. Bytes that do not decode (in a
/// known format, within the size and allocation limits) are a `BadImage`
/// error, and an image without width is unsupported; every other upload is
/// prepared.
pub fn prepare_upload(bytes: &[u8]) -> (r: Result<PreparedUpload, Error>)
    ensures
        decoded_upright(bytes@, MAX_DIMENSION, MAX_ALLOC) is None <==> r matches Err(
            Error::BadImage(_),
        ),
        decoded_upright(bytes@, MAX_DIMENSION, MAX_ALLOC) matches Some((w, h, _)) ==> (w == 0
            <==> r == Err::<PreparedUpload, Error>(Error::UnsupportedImage)),
        decoded_upright(bytes@, MAX_DIMENSION, MAX_ALLOC) matches Some((w, h, _)) && w > 0
            ==> r is Ok,
        r matches Ok(p) ==> upload_prepared_as(bytes@, p),
{
    let decoded = match decode_upright(bytes, MAX_DIMENSION, MAX_ALLOC) {
        Ok(d) => d,
        Err(e) => return Err(Error::BadImage(image_error_text(&e))),
    };
    let width = decoded.width;
    let height = decoded.height;
    if width == 0 {
        return Err(Error::UnsupportedImage);
    }
    assert(width * height * 3 <= 12000 * 12000 * 3) by (nonlinear_arith)
        requires
            width <= 12000,
            height <= 12000,
    ;
    let hash = content_hash(bytes);
    let targets = variants_for(width, height);
    proof {
        law_ladder_never_upscales(width);
        lemma_ladder_cases(width);
    }
    let mut variants: Vec<PreparedVariant> = Vec::new();
    let mut i: usize = 0;
    while i < targets.len()
        invariant
            0 < width,
            height <= MAX_DIMENSION,
            decoded_upright(bytes@, MAX_DIMENSION, MAX_ALLOC) == Some((width, height, decoded.rgb@)),
            hash@ == blake3_hex(bytes@),
            is_blob_hash_spec(hash@),
            forall|j: int| 0 <= j < hash@.len() ==> is_lower_hex_digit(#[trigger] hash@[j]),
            decoded.width == width,
            decoded.height == height,
            decoded.rgb@.len() == width * height * 3,
            width * height * 3 <= isize::MAX,
            targets@.len() == ladder(width).len(),
            forall|j: int|
                0 <= j < targets@.len() ==> {
                    &&& (#[trigger] targets@[j]).width == ladder(width)[j]
                    &&& targets@[j].height == scaled_height(width, height, ladder(width)[j])
                    &&& targets@[j].file_name@ == variant_file_name(ladder(width)[j])
                },
            forall|j: int| 0 <= j < ladder(width).len() ==> #[trigger] ladder(width)[j] <= width,
            forall|j: int| 0 <= j < ladder(width).len() ==> #[trigger] ladder(width)[j] <= 2400,
            i <= targets@.len(),
            variants@.len() == i,
            forall|j: int|
                0 <= j < i ==> {
                    &&& (#[trigger] variants@[j]).width == ladder(width)[j]
                    &&& variants@[j].height == scaled_height(width, height, ladder(width)[j])
                    &&& variants@[j].file_name@ == variant_file_name(ladder(width)[j])
                    &&& variants@[j].rgb@.len() == variants@[j].width * variants@[j].height * 3
                    &&& variants@[j].rgb@ == resized_rgb(
                        width,
                        height,
                        decoded.rgb@,
                        variants@[j].width,
                        variants@[j].height,
                    )
                },
        decreases targets@.len() - i,
    {
        let tw = targets[i].width;
        let th = targets[i].height;
        proof {
            lemma_variant_fits(width, height, tw);
        }
        let source = decoded.rgb.clone();
        assert(source@ =~= decoded.rgb@);
        let rgb = match resize_rgb(width, height, source, tw, th) {
            Ok(v) => v,
            Err(text) => return Err(Error::Resize(text)),
        };
        let file_name = variant_file_name_string(tw);
        variants.push(PreparedVariant { width: tw, height: th, file_name, rgb });
        i = i + 1;
    }
    Ok(PreparedUpload { hash, width, height, variants })
}

impl ImageService {
    /// The directory blobs are stored under.
    pub closed spec fn dir(&self) -> PathBuf {
        self.images_dir
    }

    pub fn new(images_dir: PathBuf) -> (r: ImageService)
        ensures
            r.dir() == images_dir,
    {
        ImageService { images_dir }
    }

    /// The directory blobs are stored under.
    pub fn images_dir(&self) -> (r: &PathBuf)
        ensures
            *r == self.dir(),
    {
        &self.images_dir
    }

    /// The directory that holds the variants of blob `hash`: the directory
    /// blobs are stored under, joined with `hash`.
    pub fn blob_dir(&self, hash: &str) -> (r: PathBuf)
        ensures
            r == joined_path(self.dir(), hash@),
    {
        path_join(&self.images_dir, hash)
    }

    /// Whether a blob directory named `hash` exists. A name that is not a blob
    /// hash is refused without touching the disk.
    pub fn blob_exists(&self, hash: &str) -> (r: bool)
        ensures
            r ==> is_blob_hash_spec(hash@),
    {
        if !is_blob_hash(hash) {
            return false;
        }
        let dir = self.blob_dir(hash);
        path_is_dir(&dir)
    }

    /// The `srcset` entries of blob `hash`, one per width it was stored at,
    /// narrowest first.
    pub fn derive_sourceset(&self, hash: &str, original_width: u32) -> (r: Vec<SourceSetEntry>)
        ensures
            r@.len() == ladder(original_width).len(),
            forall|i: int|
                0 <= i < r@.len() ==> {
                    &&& (#[trigger] r@[i]).width == ladder(original_width)[i]
                    &&& r@[i].url@ == variant_url(hash@, ladder(original_width)[i])
                },
    {
        let widths = ladder_for(original_width);
        let mut out: Vec<SourceSetEntry> = Vec::new();
        let mut i: usize = 0;
        while i < widths.len()
            invariant
                widths@ == ladder(original_width),
                i <= widths@.len(),
                out@.len() == i,
                forall|j: int|
                    0 <= j < i ==> {
                        &&& (#[trigger] out@[j]).width == ladder(original_width)[j]
                        &&& out@[j].url@ == variant_url(hash@, ladder(original_width)[j])
                    },
            decreases widths@.len() - i,
        {
            let w = widths[i];
            out.push(SourceSetEntry { url: variant_url_string(hash, w), width: w });
            i = i + 1;
        }
        out
    }
}

/// Whether a directory entry is one the sweep may reclaim once it is old
/// enough: a directory whose name is a blob hash that nothing references.
pub fn is_gc_candidate(is_dir: bool, name: Option<&str>, referenced: &HashSet<String>) -> (r: bool)
    ensures
        r == (is_dir && name is Some && is_blob_hash_spec(name.unwrap()@) && !set_has_text(
            referenced@,
            name.unwrap()@,
        )),
{
    if !is_dir {
        return false;
    }
    match name {
        None => false,
        Some(n) => is_blob_hash(n) && !set_contains_str(referenced, n),
    }
}

/// Whether a blob last modified `age_secs` seconds ago is past the grace
/// period and may be reclaimed.
pub fn is_past_grace(age_secs: u64) -> (r: bool)
    ensures
        r == (age_secs >= GC_MIN_AGE_SECS),
{
    age_secs >= GC_MIN_AGE_SECS
}

} // verus!

verus! {

/// The ladder of a photo written out: the rungs below its widest variant, in
/// order, then that variant.
pub(crate) proof fn lemma_ladder_cases(w: u32)
    ensures
        ladder(w) == (if w <= 400 {
            seq![w]
        } else if w <= 800 {
            seq![400u32, w]
        } else if w <= 1600 {
            seq![400u32, 800u32, w]
        } else if w <= 2400 {
            seq![400u32, 800u32, 1600u32, w]
        } else {
            seq![400u32, 800u32, 1600u32, 2400u32]
        }),
{
    let widest = widest_variant(w);
    let s = width_ladder();
    let p = |x: u32| x < widest;
    reveal_with_fuel(Seq::filter, 5);
    assert(s.drop_last() =~= seq![400u32, 800u32, 1600u32]);
    assert(s.drop_last().drop_last() =~= seq![400u32, 800u32]);
    assert(s.drop_last().drop_last().drop_last() =~= seq![400u32]);
    assert(s.drop_last().drop_last().drop_last().drop_last() =~= Seq::<u32>::empty());
    if w <= 400 {
        assert(s.filter(p) =~= Seq::<u32>::empty());
    } else if w <= 800 {
        assert(s.filter(p) =~= seq![400u32]);
    } else if w <= 1600 {
        assert(s.filter(p) =~= seq![400u32, 800u32]);
    } else if w <= 2400 {
        assert(s.filter(p) =~= seq![400u32, 800u32, 1600u32]);
    } else {
        assert(s.filter(p) =~= seq![400u32, 800u32, 1600u32]);
    }
    assert(ladder(w) =~= s.filter(p).push(widest));
}

/// No variant is wider than the original photo, there is always at least one
/// variant, and the last is the original width capped at the widest rung.
pub proof fn law_ladder_never_upscales(original_width: u32)
    ensures
        ladder(original_width).len() >= 1,
        forall|i: int|
            0 <= i < ladder(original_width).len() ==> #[trigger] ladder(original_width)[i]
                <= original_width,
        ladder(original_width).last() == widest_variant(original_width),
{
    lemma_ladder_cases(original_width);
}

/// The widths of the ladder strictly increase.
pub proof fn law_ladder_increasing(original_width: u32)
    ensures
        forall|i: int, j: int|
            0 <= i < j < ladder(original_width).len() ==> ladder(original_width)[i]
                < ladder(original_width)[j],
{
    lemma_ladder_cases(original_width);
}

/// A photo at least as wide as the widest rung is stored at exactly the
/// rungs of the ladder, and never at its full resolution beyond them.
pub proof fn law_ladder_stops_at_widest_rung(original_width: u32)
    requires
        original_width >= 2400,
    ensures
        ladder(original_width) == width_ladder(),
{
    lemma_ladder_cases(original_width);
    assert(ladder(original_width) =~= width_ladder());
}

/// A photo narrower than the widest rung keeps a variant at exactly its own
/// width, after every rung below it.
pub proof fn law_small_photos_keep_exact_width(original_width: u32)
    requires
        original_width < 2400,
    ensures
        ladder(original_width).last() == original_width,
        forall|i: int|
            0 <= i < ladder(original_width).len() - 1 ==> #[trigger] ladder(original_width)[i]
                < original_width,
{
    lemma_ladder_cases(original_width);
}

} // verus!
