//! What a scan of the photo folders reports, and its request.
use vstd::prelude::*;

verus! {

/// The counts that a scan reports.
#[derive(Debug, Clone, Copy, PartialEq, Eq, Structural)]
pub struct ScanPhotosResult {
    pub new_photos_found: bool,
    pub new_photos: i32,
    pub updated_photos: i32,
    pub deleted_photos: i32,
}

impl ScanPhotosResult {
    pub fn new(new_photos: i32, updated_photos: i32, deleted_photos: i32) -> (r: ScanPhotosResult)
        ensures
            r.new_photos_found == (new_photos > 0),
            r.new_photos == new_photos,
            r.updated_photos == updated_photos,
            r.deleted_photos == deleted_photos,
    {
        ScanPhotosResult {
            new_photos_found: new_photos > 0,
            new_photos,
            updated_photos,
            deleted_photos,
        }
    }
}

impl Default for ScanPhotosResult {
    fn default() -> (r: ScanPhotosResult)
        ensures
            r == (ScanPhotosResult {
                new_photos_found: false,
                new_photos: 0,
                updated_photos: 0,
                deleted_photos: 0,
            }),
    {
        ScanPhotosResult {
            new_photos_found: false,
            new_photos: 0,
            updated_photos: 0,
            deleted_photos: 0,
        }
    }
}

/// `s` without its double quotes.
pub open spec fn without_quotes(s: Seq<char>) -> Seq<char>
    decreases s.len(),
{
    if s.len() == 0 {
        Seq::empty()
    } else if s.last() == '"' {
        without_quotes(s.drop_last())
    } else {
        without_quotes(s.drop_last()).push(s.last())
    }
}

/// A request to scan one folder, or all of them.
#[derive(Debug, Clone)]
pub struct ScanPhotosRequest {
    pub folder: Option<String>,
}

impl ScanPhotosRequest {
    /// The folder to scan with its double quotes removed; empty when none
    /// is named.
    pub fn get_folder(&self) -> (r: String)
        ensures
            r@ == match self.folder {
                Some(f) => without_quotes(f@),
                None => Seq::empty(),
            },
    {
        match &self.folder {
            None => String::new(),
            Some(f) => {
                let n = f.unicode_len();
                let mut out = String::new();
                let mut i: usize = 0;
                while i < n
                    invariant
                        n == f@.len(),
                        0 <= i <= n,
                        out@ == without_quotes(f@.take(i as int)),
                    decreases n - i,
                {
                    assert(f@.take(i + 1).drop_last() =~= f@.take(i as int));
                    if f.as_str().get_char(i) != '"' {
                        let one = f.as_str().substring_char(i, i + 1);
                        out.append(one);
                        assert(out@ =~= without_quotes(f@.take(i as int)).push(f@[i as int]));
                    }
                    i = i + 1;
                }
                assert(f@.take(n as int) =~= f@);
                out
            },
        }
    }
}

/// A wallpaper file to attach to a photo.
#[derive(Debug, Clone)]
pub struct NewWallpaper {
    pub file_path: String,
}

} // verus!
