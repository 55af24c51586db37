//! The photo records and the listing's read model with its derived fields:
//! the reduced aspect ratio and the public media URL.
use vstd::prelude::*;
use vstd::string::StringSliceAdditionalSpecFns;
use vstd::utf8::encode_utf8;
use crate::codec::{decimal, decimal_of, percent_byte, percent_encode_one};

verus! {

/// chrono's `NaiveDateTime`, carried through the records unread.
#[verifier::external_type_specification]
#[verifier::external_body]
pub struct ExNaiveDateTime(chrono::NaiveDateTime);

/// The greatest common divisor, by Euclid's rule.
pub open spec fn gcd(a: nat, b: nat) -> nat
    decreases b,
{
    if b == 0 {
        a
    } else {
        gcd(b, a % b)
    }
}

proof fn lemma_gcd_positive(a: nat, b: nat)
    requires
        a > 0 || b > 0,
    ensures
        gcd(a, b) > 0,
    decreases b,
{
    if b > 0 {
        lemma_gcd_positive(b, a % b);
    }
}

/// `w:h` reduced by their greatest common divisor; empty unless both are
/// positive.
pub open spec fn ratio_spec(w: int, h: int) -> Seq<char> {
    if w > 0 && h > 0 {
        decimal_of((w / gcd(w as nat, h as nat) as int) as nat) + ":"@ + decimal_of(
            (h / gcd(w as nat, h as nat) as int) as nat,
        )
    } else {
        Seq::empty()
    }
}

/// Computes the greatest common divisor of two positive numbers.
pub fn gcd_of(a: u32, b: u32) -> (r: u32)
    requires
        a > 0,
    ensures
        r as nat == gcd(a as nat, b as nat),
        r > 0,
{
    let mut x = a;
    let mut y = b;
    while y != 0
        invariant
            x > 0 || y > 0,
            gcd(x as nat, y as nat) == gcd(a as nat, b as nat),
        decreases y,
    {
        let t = x % y;
        x = y;
        y = t;
    }
    proof {
        lemma_gcd_positive(x as nat, y as nat);
    }
    x
}

/// The aspect ratio of a `width` by `height` image, reduced to lowest
/// terms (`1920`, `1080` gives `16:9`); empty unless both are positive.
pub fn extract_ratio(width: i32, height: i32) -> (r: String)
    ensures
        r@ == ratio_spec(width as int, height as int),
{
    if width <= 0 || height <= 0 {
        return String::new();
    }
    let g = gcd_of(width as u32, height as u32);
    let mut s = decimal((width as u32 / g) as u64);
    s.append(":");
    let h = decimal((height as u32 / g) as u64);
    s.append(h.as_str());
    s
}

/// The first position at or after `from` where `d` occurs in `p`.
pub open spec fn first_occurrence(p: Seq<char>, d: Seq<char>, from: int) -> Option<int>
    decreases p.len() + 1 - from,
{
    if from < 0 || from + d.len() > p.len() {
        None
    } else if p.subrange(from, from + d.len()) == d {
        Some(from)
    } else {
        first_occurrence(p, d, from + 1)
    }
}

/// Whether a stored file path lies under the photo library's root: it
/// holds `photos`, and the first `photos` is followed by a one-byte (ASCII)
/// separator character.
pub open spec fn media_path_ok(p: Seq<char>) -> bool {
    match first_occurrence(p, "photos"@, 0) {
        Some(i) => i + 7 <= p.len() && (p[i + 6] as u32) < 128,
        None => false,
    }
}

/// The part of a stored file path below the photo library's root: what
/// follows the first `photos` and the separator after it.
pub open spec fn media_path_spec(p: Seq<char>) -> Seq<char> {
    p.skip(first_occurrence(p, "photos"@, 0).unwrap() + 7)
}

/// Characters that stay as they are in a media URL: printable ASCII but
/// the space and the single quote.
pub open spec fn media_keeps(c: char) -> bool {
    32 < (c as u32) && (c as u32) < 127 && c != '\''
}

/// The percent-encoding of each byte of `bs`.
pub open spec fn percent_bytes(bs: Seq<u8>) -> Seq<char>
    decreases bs.len(),
{
    if bs.len() == 0 {
        Seq::empty()
    } else {
        percent_bytes(bs.drop_last()) + percent_byte(bs.last())
    }
}

/// A character as it stands in a media URL.
pub open spec fn media_char(c: char) -> Seq<char> {
    if media_keeps(c) {
        seq![c]
    } else {
        percent_bytes(encode_utf8(seq![c]))
    }
}

/// `s` with control characters, spaces, single quotes and every non-ASCII
/// character percent-encoded byte by byte.
pub open spec fn media_encoded(s: Seq<char>) -> Seq<char>
    decreases s.len(),
{
    if s.len() == 0 {
        Seq::empty()
    } else {
        media_encoded(s.drop_last()) + media_char(s.last())
    }
}

/// The public URL of a stored file served by `host`.
pub open spec fn media_url_spec(host: Seq<char>, file_path: Seq<char>) -> Seq<char> {
    media_encoded("http://"@ + host + "/media/"@ + media_path_spec(file_path))
}

/// Finds the first occurrence of `d` in `p`.
pub fn find_first(p: &str, d: &str) -> (r: Option<usize>)
    ensures
        match r {
            Some(i) => first_occurrence(p@, d@, 0) == Some(i as int),
            None => first_occurrence(p@, d@, 0).is_none(),
        },
{
    let n = p.unicode_len();
    let m = d.unicode_len();
    if m > n {
        return None;
    }
    if m == 0 {
        assert(p@.subrange(0, 0) =~= d@);
        return Some(0);
    }
    let target = String::from_str(d);
    let mut i: usize = 0;
    while i <= n - m
        invariant
            n == p@.len(),
            m == d@.len(),
            target@ == d@,
            1 <= m <= n,
            0 <= i <= n - m + 1,
            first_occurrence(p@, d@, 0) == first_occurrence(p@, d@, i as int),
        decreases n - i,
    {
        let here = String::from_str(p.substring_char(i, i + m));
        if here == target {
            return Some(i);
        }
        i = i + 1;
    }
    None
}

/// Whether `file_path` lies under the photo library's root, so that its
/// media URL can be formed.
pub fn has_media_root(file_path: &str) -> (r: bool)
    ensures
        r == media_path_ok(file_path@),
{
    let n = file_path.unicode_len();
    match find_first(file_path, "photos") {
        Some(i) => {
            proof {
                reveal_strlit("photos");
            }
            if i <= n && n - i >= 7 {
                (file_path.get_char(i + 6) as u32) < 128
            } else {
                false
            }
        },
        None => false,
    }
}

/// The part of `file_path` below the photo library's root.
pub fn media_path(file_path: &str) -> (r: String)
    requires
        media_path_ok(file_path@),
    ensures
        r@ == media_path_spec(file_path@),
{
    let n = file_path.unicode_len();
    match find_first(file_path, "photos") {
        Some(i) => {
            proof {
                reveal_strlit("photos");
            }
            String::from_str(file_path.substring_char(i + 7, n))
        },
        None => String::new(),
    }
}

/// Percent-encodes control characters, spaces, single quotes and non-ASCII
/// characters of `s`.
pub fn encode_media(s: &str) -> (r: String)
    ensures
        r@ == media_encoded(s@),
{
    let n = s.unicode_len();
    let mut out = String::new();
    let mut i: usize = 0;
    while i < n
        invariant
            n == s@.len(),
            0 <= i <= n,
            out@ == media_encoded(s@.take(i as int)),
        decreases n - i,
    {
        assert(s@.take(i + 1).drop_last() =~= s@.take(i as int));
        let c = s.get_char(i);
        let one = s.substring_char(i, i + 1);
        assert(one@ =~= seq![c]);
        if 32 < (c as u32) && (c as u32) < 127 && c != '\'' {
            out.append(one);
        } else {
            let bytes = one.as_bytes();
            let ghost start = out@;
            let mut j: usize = 0;
            while j < bytes.len()
                invariant
                    bytes@ == encode_utf8(seq![c]),
                    0 <= j <= bytes@.len(),
                    out@ == start + percent_bytes(bytes@.take(j as int)),
                decreases bytes@.len() - j,
            {
                assert(bytes@.take(j + 1).drop_last() =~= bytes@.take(j as int));
                out.append(percent_encode_one(bytes[j]));
                assert(out@ =~= start + percent_bytes(bytes@.take(j + 1)));
                j = j + 1;
            }
            assert(bytes@.take(bytes@.len() as int) =~= bytes@);
        }
        i = i + 1;
    }
    assert(s@.take(n as int) =~= s@);
    out
}

/// The public URL of a stored file: `http://<host>/media/` and the part of
/// the path below the library root, percent-encoded.
pub fn build_photo_url(host: &str, file_path: &str) -> (r: String)
    requires
        media_path_ok(file_path@),
    ensures
        r@ == media_url_spec(host@, file_path@),
{
    let mut url = String::from_str("http://");
    url.append(host);
    url.append("/media/");
    let path = media_path(file_path);
    url.append(path.as_str());
    encode_media(url.as_str())
}

/// A stored photo.
#[derive(Debug)]
pub struct Photo {
    pub id: i32,
    pub file_path: String,
    pub file_name: String,
    pub file_hash: String,
    pub rating: i32,
    pub date_created: chrono::NaiveDateTime,
    pub date_updated: chrono::NaiveDateTime,
    pub original_width: i32,
    pub original_height: i32,
    pub rotation: i32,
    pub ineligible_for_wallpaper: bool,
    pub anonymous_entities: bool,
}

/// The stored columns of one row of the listing's read model.
#[derive(Debug)]
pub struct PhotoRow {
    pub id: i32,
    pub file_path: String,
    pub folder: String,
    pub file_name: String,
    pub file_hash: String,
    pub rating: i32,
    pub date_created: chrono::NaiveDateTime,
    pub date_updated: chrono::NaiveDateTime,
    pub original_width: i32,
    pub original_height: i32,
    pub orientation: String,
    pub rotation: i32,
    pub ineligible_for_wallpaper: bool,
    pub anonymous_entities: bool,
    pub suggested_entity_name: String,
    pub entities: Option<Vec<String>>,
    pub tags: Option<Vec<String>>,
    pub wallpapers: Option<Vec<String>>,
}

/// A photo as the listing shows it: the stored columns, the aspect ratio
/// and the public media URL.
#[derive(Debug)]
pub struct PhotoFull {
    pub id: i32,
    pub file_path: String,
    pub folder: String,
    pub file_name: String,
    pub file_hash: String,
    pub rating: i32,
    pub date_created: chrono::NaiveDateTime,
    pub date_updated: chrono::NaiveDateTime,
    pub original_width: i32,
    pub original_height: i32,
    pub orientation: String,
    pub aspect_ratio: String,
    pub rotation: i32,
    pub ineligible_for_wallpaper: bool,
    pub anonymous_entities: bool,
    pub suggested_entity_name: String,
    pub entities: Option<Vec<String>>,
    pub tags: Option<Vec<String>>,
    pub wallpapers: Option<Vec<String>>,
    pub media_url: String,
}

impl PhotoFull {
    /// Whether this is the read-model item of `row`, its media served by
    /// `host`: every stored column copied, the aspect ratio and media URL
    /// derived.
    pub open spec fn is_item_of(&self, row: PhotoRow, host: Seq<char>) -> bool {
        &&& self.id == row.id
        &&& self.file_path == row.file_path
        &&& self.folder == row.folder
        &&& self.file_name == row.file_name
        &&& self.file_hash == row.file_hash
        &&& self.rating == row.rating
        &&& self.date_created == row.date_created
        &&& self.date_updated == row.date_updated
        &&& self.original_width == row.original_width
        &&& self.original_height == row.original_height
        &&& self.orientation == row.orientation
        &&& self.rotation == row.rotation
        &&& self.ineligible_for_wallpaper == row.ineligible_for_wallpaper
        &&& self.anonymous_entities == row.anonymous_entities
        &&& self.suggested_entity_name == row.suggested_entity_name
        &&& self.entities == row.entities
        &&& self.tags == row.tags
        &&& self.wallpapers == row.wallpapers
        &&& self.aspect_ratio@ == ratio_spec(row.original_width as int, row.original_height as int)
        &&& self.media_url@ == media_url_spec(host, row.file_path@)
    }

    /// The read-model item of a row; `host` serves the media files.
    pub fn from_row(row: PhotoRow, host: &str) -> (r: PhotoFull)
        requires
            media_path_ok(row.file_path@),
        ensures
            r.is_item_of(row, host@),
    {
        let aspect_ratio = extract_ratio(row.original_width, row.original_height);
        let media_url = build_photo_url(host, row.file_path.as_str());
        PhotoFull {
            id: row.id,
            file_path: row.file_path,
            folder: row.folder,
            file_name: row.file_name,
            file_hash: row.file_hash,
            rating: row.rating,
            date_created: row.date_created,
            date_updated: row.date_updated,
            original_width: row.original_width,
            original_height: row.original_height,
            orientation: row.orientation,
            aspect_ratio,
            rotation: row.rotation,
            ineligible_for_wallpaper: row.ineligible_for_wallpaper,
            anonymous_entities: row.anonymous_entities,
            suggested_entity_name: row.suggested_entity_name,
            entities: row.entities,
            tags: row.tags,
            wallpapers: row.wallpapers,
            media_url,
        }
    }

    /// The read-model item of a row and the match count beside it.
    pub fn from_paginated_row(row: PhotoRow, count: i64, host: &str) -> (r: (PhotoFull, i64))
        requires
            media_path_ok(row.file_path@),
        ensures
            r.0.is_item_of(row, host@),
            r.1 == count,
    {
        (PhotoFull::from_row(row, host), count)
    }
}

} // verus!
