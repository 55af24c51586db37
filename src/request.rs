//! The listing request as the client sends it.
use vstd::prelude::*;
use crate::codec::{
    decimal_value, form_pairs, lemma_split_len, non_empty, pairs_view, parse_decimal, parse_form_pairs, split_on,
};
use crate::error::ServiceError;

verus! {

/// Page size used when the request names none, or names one below 1.
pub const DEFAULT_PAGE_SIZE: i64 = 20;

/// A client's request for one page of the listing.
///
/// `sort_by` holds the sort tokens in priority order; an empty list means
/// that the listing keeps its stable order. A `folder` of `None` and an
/// empty folder both mean that no folder filter applies.
#[derive(Debug, Clone)]
pub struct ListingRequest {
    pub page: Option<i64>,
    pub page_size: Option<i64>,
    pub sort_by: Vec<String>,
    pub collection_id: Option<i32>,
    pub folder: Option<String>,
}

/// A requested number coerced to at least 1, with `default` when absent.
pub open spec fn coerced(v: Option<i64>, default: int) -> int {
    match v {
        Some(x) => if x >= 1 { x as int } else { 1 },
        None => default,
    }
}

/// The value of the first pair named `key`.
pub open spec fn lookup_param(pairs: Seq<(Seq<char>, Seq<char>)>, key: Seq<char>) -> Option<
    Seq<char>,
>
    decreases pairs.len(),
{
    if pairs.len() == 0 {
        None
    } else if pairs[0].0 == key {
        Some(pairs[0].1)
    } else {
        lookup_param(pairs.drop_first(), key)
    }
}

/// A numeric parameter: absent gives `Some(None)`; a decimal number up to
/// `max` gives `Some(Some(n))`; anything else is invalid (`None`).
pub open spec fn number_param(v: Option<Seq<char>>, max: int) -> Option<Option<int>> {
    match v {
        None => Some(None),
        Some(s) => match decimal_value(s) {
            Some(n) => if n <= max {
                Some(Some(n))
            } else {
                None
            },
            None => None,
        },
    }
}

/// The sort tokens of a `sort_by` parameter: its comma-separated parts
/// that are not empty.
pub open spec fn sort_param(v: Option<Seq<char>>) -> Seq<Seq<char>> {
    match v {
        Some(s) => non_empty(split_on(s, ',')),
        None => Seq::empty(),
    }
}

pub open spec fn opt_i64(o: Option<i64>) -> Option<int> {
    match o {
        Some(x) => Some(x as int),
        None => None,
    }
}

pub open spec fn opt_i32(o: Option<i32>) -> Option<int> {
    match o {
        Some(x) => Some(x as int),
        None => None,
    }
}

pub open spec fn opt_text(o: Option<String>) -> Option<Seq<char>> {
    match o {
        Some(x) => Some(x@),
        None => None,
    }
}

/// Whether every numeric parameter among `pairs` is valid.
pub open spec fn query_valid(pairs: Seq<(Seq<char>, Seq<char>)>) -> bool {
    &&& number_param(lookup_param(pairs, "page"@), i64::MAX as int).is_some()
    &&& number_param(lookup_param(pairs, "page_size"@), i64::MAX as int).is_some()
    &&& number_param(lookup_param(pairs, "collection_id"@), i32::MAX as int).is_some()
}

/// Whether `r` is the request that `pairs` spell.
pub open spec fn request_of(r: ListingRequest, pairs: Seq<(Seq<char>, Seq<char>)>) -> bool {
    &&& opt_i64(r.page) == number_param(lookup_param(pairs, "page"@), i64::MAX as int).unwrap()
    &&& opt_i64(r.page_size) == number_param(
        lookup_param(pairs, "page_size"@),
        i64::MAX as int,
    ).unwrap()
    &&& opt_i32(r.collection_id) == number_param(
        lookup_param(pairs, "collection_id"@),
        i32::MAX as int,
    ).unwrap()
    &&& r.sort_spec() == sort_param(lookup_param(pairs, "sort_by"@))
    &&& opt_text(r.folder) == lookup_param(pairs, "folder"@)
}

/// The value of the first pair named `key`.
pub fn find_param(pairs: &Vec<(String, String)>, key: &str) -> (r: Option<String>)
    ensures
        opt_text(r) == lookup_param(pairs_view(pairs@), key@),
{
    let ghost pv = pairs_view(pairs@);
    let k = String::from_str(key);
    let n = pairs.len();
    let mut i: usize = 0;
    assert(pv.skip(0) =~= pv);
    while i < n
        invariant
            n == pairs@.len(),
            pv == pairs_view(pairs@),
            k@ == key@,
            0 <= i <= n,
            lookup_param(pv, key@) == lookup_param(pv.skip(i as int), key@),
        decreases n - i,
    {
        assert(pv.skip(i as int).drop_first() =~= pv.skip(i + 1));
        assert(pv.skip(i as int)[0] == (pairs@[i as int].0@, pairs@[i as int].1@));
        if pairs[i].0 == k {
            return Some(pairs[i].1.clone());
        }
        i = i + 1;
    }
    None
}

/// Reads an optional numeric parameter no larger than `max`.
fn number_of(v: &Option<String>, max: i64) -> (r: Result<Option<i64>, ServiceError>)
    requires
        max >= 0,
    ensures
        match r {
            Ok(o) => number_param(opt_text(*v), max as int) == Some(opt_i64(o)) && match o {
                Some(x) => 0 <= x <= max,
                None => true,
            },
            Err(e) => number_param(opt_text(*v), max as int).is_none() && e
                == ServiceError::ValidationFailure,
        },
{
    match v {
        None => Ok(None),
        Some(s) => match parse_decimal(s.as_str()) {
            Some(n) => if n <= max {
                Ok(Some(n))
            } else {
                Err(ServiceError::ValidationFailure)
            },
            None => Err(ServiceError::ValidationFailure),
        },
    }
}

/// Splits a `sort_by` value at its commas, dropping empty parts.
pub fn split_sort_tokens(s: &str) -> (r: Vec<String>)
    ensures
        r.deep_view() == non_empty(split_on(s@, ',')),
{
    let n = s.unicode_len();
    let mut tokens: Vec<String> = Vec::new();
    let mut cur = String::new();
    let mut i: usize = 0;
    assert(s@.take(0) =~= Seq::<char>::empty());
    while i < n
        invariant
            n == s@.len(),
            0 <= i <= n,
            tokens.deep_view() == non_empty(split_on(s@.take(i as int), ',').drop_last()),
            cur@ == split_on(s@.take(i as int), ',').last(),
        decreases n - i,
    {
        let ghost before = split_on(s@.take(i as int), ',');
        proof {
            lemma_split_len(s@.take(i as int), ',');
        }
        assert(s@.take(i + 1).drop_last() =~= s@.take(i as int));
        let c = s.get_char(i);
        if c == ',' {
            if cur.unicode_len() > 0 {
                tokens.push(cur);
                assert(tokens.deep_view() =~= non_empty(before.drop_last()).push(before.last()));
            }
            cur = String::new();
            assert(split_on(s@.take(i + 1), ',').drop_last() =~= before);
        } else {
            cur.append(s.substring_char(i, i + 1));
            assert(split_on(s@.take(i + 1), ',').drop_last() =~= before.drop_last());
        }
        i = i + 1;
    }
    assert(s@.take(n as int) =~= s@);
    let ghost parts = split_on(s@, ',');
    proof {
        lemma_split_len(s@, ',');
    }
    if cur.unicode_len() > 0 {
        tokens.push(cur);
        assert(parts.drop_last().push(parts.last()) =~= parts);
        assert(tokens.deep_view() =~= non_empty(parts.drop_last()).push(parts.last()));
    } else {
        assert(parts.drop_last().push(parts.last()) =~= parts);
    }
    tokens
}

impl ListingRequest {
    /// Reads a request from a URL query string such as
    /// `page=2&page_size=20&sort_by=-rating,id&folder=2020`. Names are
    /// matched exactly and the first pair of a name counts; other names are
    /// ignored. Fails with `ValidationFailure` where `page`, `page_size` or
    /// `collection_id` is not a decimal number in range.
    pub fn from_query(q: &str) -> (r: Result<ListingRequest, ServiceError>)
        ensures
            r.is_ok() <==> query_valid(form_pairs(q@)),
            match r {
                Ok(req) => request_of(req, form_pairs(q@)),
                Err(e) => e == ServiceError::ValidationFailure,
            },
    {
        let pairs = parse_form_pairs(q);
        let page = match number_of(&find_param(&pairs, "page"), i64::MAX) {
            Ok(v) => v,
            Err(e) => return Err(e),
        };
        let page_size = match number_of(&find_param(&pairs, "page_size"), i64::MAX) {
            Ok(v) => v,
            Err(e) => return Err(e),
        };
        let collection = match number_of(&find_param(&pairs, "collection_id"), i32::MAX as i64) {
            Ok(v) => v,
            Err(e) => return Err(e),
        };
        let collection_id: Option<i32> = match collection {
            Some(c) => Some(c as i32),
            None => None,
        };
        let sort_by = match find_param(&pairs, "sort_by") {
            Some(v) => split_sort_tokens(v.as_str()),
            None => Vec::new(),
        };
        assert(sort_by.deep_view() =~= sort_param(lookup_param(form_pairs(q@), "sort_by"@)));
        let folder = find_param(&pairs, "folder");
        Ok(ListingRequest { page, page_size, sort_by, collection_id, folder })
    }

    /// The page that the request asks for, coerced to at least 1.
    pub open spec fn page_spec(&self) -> int {
        coerced(self.page, 1)
    }

    /// The page size that the request asks for, coerced to at least 1.
    pub open spec fn page_size_spec(&self) -> int {
        coerced(self.page_size, DEFAULT_PAGE_SIZE as int)
    }

    /// The sort tokens as character sequences.
    pub open spec fn sort_spec(&self) -> Seq<Seq<char>> {
        self.sort_by.deep_view()
    }

    /// The folder filter text; empty when absent.
    pub open spec fn folder_spec(&self) -> Seq<char> {
        match self.folder {
            Some(f) => f@,
            None => Seq::empty(),
        }
    }

    /// Whether the request narrows the listing at all.
    pub open spec fn has_filters_spec(&self) -> bool {
        self.collection_id.is_some() || self.folder_spec().len() > 0
    }

    pub fn new(
        page: Option<i64>,
        page_size: Option<i64>,
        sort_by: Vec<String>,
        collection_id: Option<i32>,
        folder: Option<String>,
    ) -> (r: ListingRequest)
        ensures
            r.page == page,
            r.page_size == page_size,
            r.sort_by == sort_by,
            r.collection_id == collection_id,
            r.folder == folder,
    {
        ListingRequest { page, page_size, sort_by, collection_id, folder }
    }

    pub fn get_page(&self) -> (r: i64)
        ensures
            r == self.page_spec(),
            r >= 1,
    {
        match self.page {
            Some(p) => if p >= 1 { p } else { 1 },
            None => 1,
        }
    }

    pub fn get_page_size(&self) -> (r: i64)
        ensures
            r == self.page_size_spec(),
            r >= 1,
    {
        match self.page_size {
            Some(s) => if s >= 1 { s } else { 1 },
            None => DEFAULT_PAGE_SIZE,
        }
    }

    pub fn get_sort_by(&self) -> (r: &Vec<String>)
        ensures
            r.deep_view() == self.sort_spec(),
    {
        &self.sort_by
    }

    pub fn get_folder(&self) -> (r: String)
        ensures
            r@ == self.folder_spec(),
    {
        match &self.folder {
            Some(f) => f.clone(),
            None => String::new(),
        }
    }

    /// True when the request names a collection or a non-empty folder.
    pub fn has_collection_or_filters(&self) -> (r: bool)
        ensures
            r == self.has_filters_spec(),
    {
        if self.collection_id.is_some() {
            true
        } else {
            match &self.folder {
                Some(f) => f.unicode_len() > 0,
                None => false,
            }
        }
    }
}

} // verus!
