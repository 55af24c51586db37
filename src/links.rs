//! Navigation links of a listing page: first, previous, current, next and
//! last, each carrying the request's page size, sort tokens and folder.
use vstd::prelude::*;
use crate::codec::{
    decimal, decimal_of, form_encode, form_encoded, form_pair, form_pairs, is_digit,
    lacks, lemma_before_after, lemma_decimal_round_trip, lemma_form_round_trip,
    lemma_non_empty_keeps, lemma_plain_decodes, lemma_split_joined, lemma_split_suffix,
    lemma_split_without_sep, split_on,
};
use crate::page::clamp_page;
use crate::request::{lookup_param, number_param, query_valid, request_of, sort_param, ListingRequest};
use vstd::utf8::is_ascii_chars;

verus! {

/// Tokens joined with `,`.
pub open spec fn join_commas(ts: Seq<Seq<char>>) -> Seq<char>
    decreases ts.len(),
{
    if ts.len() == 0 {
        Seq::empty()
    } else if ts.len() == 1 {
        ts[0]
    } else {
        join_commas(ts.drop_last()) + ","@ + ts.last()
    }
}

/// One `key=value` sequence.
pub open spec fn segment(key: Seq<char>, val: Seq<char>) -> Seq<char> {
    key + "="@ + val
}

/// The query string of the link to page `n`.
pub open spec fn link_query(n: int, size: int, sort: Seq<Seq<char>>, folder: Seq<char>) -> Seq<
    char,
> {
    segment("page"@, decimal_of(n as nat)) + "&"@ + segment("page_size"@, decimal_of(size as nat))
        + (if sort.len() > 0 {
        "&"@ + segment("sort_by"@, form_encoded(join_commas(sort)))
    } else {
        Seq::empty()
    }) + "&"@ + segment("folder"@, form_encoded(folder))
}

/// The link to page `n` of the listing at `base` for request `req`.
pub open spec fn link_spec(base: Seq<char>, n: int, req: ListingRequest) -> Seq<char> {
    base + "?"@ + link_query(n, req.page_size_spec(), req.sort_spec(), req.folder_spec())
}

/// The current page of `req` when there are `total_pages` pages.
pub open spec fn current_of(req: ListingRequest, total_pages: int) -> int {
    clamp_page(req.page_spec(), total_pages)
}

pub open spec fn first_link_spec(base: Seq<char>, req: ListingRequest, total_pages: int) -> Seq<
    char,
> {
    if current_of(req, total_pages) == 1 {
        Seq::empty()
    } else {
        link_spec(base, 1, req)
    }
}

pub open spec fn previous_link_spec(base: Seq<char>, req: ListingRequest, total_pages: int) -> Seq<
    char,
> {
    if current_of(req, total_pages) == 1 {
        Seq::empty()
    } else {
        link_spec(base, current_of(req, total_pages) - 1, req)
    }
}

pub open spec fn current_link_spec(base: Seq<char>, req: ListingRequest, total_pages: int) -> Seq<
    char,
> {
    link_spec(base, current_of(req, total_pages), req)
}

pub open spec fn next_link_spec(base: Seq<char>, req: ListingRequest, total_pages: int) -> Seq<
    char,
> {
    if current_of(req, total_pages) >= total_pages {
        Seq::empty()
    } else {
        link_spec(base, current_of(req, total_pages) + 1, req)
    }
}

pub open spec fn last_link_spec(base: Seq<char>, req: ListingRequest, total_pages: int) -> Seq<
    char,
> {
    if current_of(req, total_pages) >= total_pages {
        Seq::empty()
    } else {
        link_spec(base, total_pages, req)
    }
}

proof fn lemma_link_nonempty(base: Seq<char>, n: int, req: ListingRequest)
    ensures
        link_spec(base, n, req).len() > 0,
{
    reveal_strlit("?");
    assert(link_spec(base, n, req)[base.len() as int] == '?');
}

/// The links towards the start are empty exactly on the first page; the
/// links towards the end are empty exactly on the last page, and both are
/// empty when there is at most one page.
pub proof fn lemma_link_emptiness(base: Seq<char>, req: ListingRequest, total_pages: int)
    ensures
        first_link_spec(base, req, total_pages).len() == 0 <==> current_of(req, total_pages) == 1,
        previous_link_spec(base, req, total_pages).len() == 0 <==> current_of(req, total_pages)
            == 1,
        next_link_spec(base, req, total_pages).len() == 0 <==> (total_pages < 1 || current_of(
            req,
            total_pages,
        ) == total_pages),
        last_link_spec(base, req, total_pages).len() == 0 <==> (total_pages < 1 || current_of(
            req,
            total_pages,
        ) == total_pages),
        total_pages <= 1 ==> next_link_spec(base, req, total_pages).len() == 0
            && last_link_spec(base, req, total_pages).len() == 0,
        current_link_spec(base, req, total_pages).len() > 0,
{
    let c = current_of(req, total_pages);
    lemma_link_nonempty(base, 1, req);
    lemma_link_nonempty(base, c - 1, req);
    lemma_link_nonempty(base, c, req);
    lemma_link_nonempty(base, c + 1, req);
    lemma_link_nonempty(base, total_pages, req);
}

/// With nothing to list there are no pages, the current page is 1, and
/// only the link to the current page leads anywhere.
pub proof fn lemma_empty_listing(base: Seq<char>, req: ListingRequest)
    ensures
        crate::page::total_pages_spec(0, req.page_size_spec()) == 0,
        current_of(req, 0) == 1,
        first_link_spec(base, req, 0).len() == 0,
        previous_link_spec(base, req, 0).len() == 0,
        next_link_spec(base, req, 0).len() == 0,
        last_link_spec(base, req, 0).len() == 0,
        current_link_spec(base, req, 0) == link_spec(base, 1, req),
{
}

proof fn lemma_digits_plain(n: nat)
    ensures
        is_ascii_chars(decimal_of(n)),
        lacks(decimal_of(n), '&'),
        lacks(decimal_of(n), '='),
        forall|i: int|
            0 <= i < decimal_of(n).len() ==> #[trigger] decimal_of(n)[i] != '%' && decimal_of(n)[i]
                != '+',
        decimal_of(n).len() > 0,
{
    lemma_decimal_round_trip(n);
    let d = decimal_of(n);
    assert(forall|i: int| 0 <= i < d.len() ==> is_digit(#[trigger] d[i]));
}

/// The `&`-separated sequences of [`link_query`].
pub open spec fn link_segments(n: int, size: int, sort: Seq<Seq<char>>, folder: Seq<char>) -> Seq<
    Seq<char>,
> {
    let s1 = segment("page"@, decimal_of(n as nat));
    let s2 = segment("page_size"@, decimal_of(size as nat));
    let s3 = segment("sort_by"@, form_encoded(join_commas(sort)));
    let s4 = segment("folder"@, form_encoded(folder));
    if sort.len() > 0 {
        seq![s1, s2, s3, s4]
    } else {
        seq![s1, s2, s4]
    }
}

/// The decoded pairs of [`link_query`].
pub open spec fn link_pairs(n: int, size: int, sort: Seq<Seq<char>>, folder: Seq<char>) -> Seq<
    (Seq<char>, Seq<char>),
> {
    let p1 = ("page"@, decimal_of(n as nat));
    let p2 = ("page_size"@, decimal_of(size as nat));
    let p3 = ("sort_by"@, join_commas(sort));
    let p4 = ("folder"@, folder);
    if sort.len() > 0 {
        seq![p1, p2, p3, p4]
    } else {
        seq![p1, p2, p4]
    }
}

/// Whether `key` is a plain parameter name.
pub open spec fn plain_key(key: Seq<char>) -> bool {
    &&& key.len() > 0
    &&& is_ascii_chars(key)
    &&& lacks(key, '=')
    &&& lacks(key, '&')
    &&& forall|i: int| 0 <= i < key.len() ==> #[trigger] key[i] != '%' && key[i] != '+'
}

proof fn lemma_keys()
    ensures
        plain_key("page"@),
        plain_key("page_size"@),
        plain_key("sort_by"@),
        plain_key("folder"@),
        "page"@ != "page_size"@,
        "page"@ != "sort_by"@,
        "page"@ != "folder"@,
        "page_size"@ != "sort_by"@,
        "page_size"@ != "folder"@,
        "sort_by"@ != "folder"@,
        "collection_id"@ != "page"@,
        "collection_id"@ != "page_size"@,
        "collection_id"@ != "sort_by"@,
        "collection_id"@ != "folder"@,
{
    reveal_strlit("page");
    reveal_strlit("page_size");
    reveal_strlit("sort_by");
    reveal_strlit("folder");
    reveal_strlit("collection_id");
    assert("page"@.len() != "page_size"@.len());
    assert("page"@.len() != "sort_by"@.len());
    assert("page"@.len() != "folder"@.len());
    assert("page_size"@.len() != "sort_by"@.len());
    assert("page_size"@.len() != "folder"@.len());
    assert("sort_by"@.len() != "folder"@.len());
    assert("collection_id"@.len() != "page"@.len());
    assert("collection_id"@.len() != "page_size"@.len());
    assert("collection_id"@.len() != "sort_by"@.len());
    assert("collection_id"@.len() != "folder"@.len());
}

proof fn lemma_segment(key: Seq<char>, val: Seq<char>, decoded: Seq<char>)
    requires
        plain_key(key),
        lacks(val, '&'),
        crate::codec::form_decoded(val) == decoded,
    ensures
        lacks(segment(key, val), '&'),
        segment(key, val).len() > 0,
        form_pair(segment(key, val)) == (key, decoded),
{
    reveal_strlit("=");
    assert(segment(key, val) =~= key + seq!['='] + val);
    lemma_before_after(key, val, '=');
    lemma_plain_decodes(key);
    let sg = segment(key, val);
    assert forall|i: int| 0 <= i < sg.len() implies #[trigger] sg[i] != '&' by {
        if i > key.len() {
            assert(sg[i] == val[i - key.len() - 1]);
        } else if i < key.len() {
            assert(sg[i] == key[i]);
        }
    }
}

proof fn lemma_link_segments(n: int, size: int, sort: Seq<Seq<char>>, folder: Seq<char>)
    requires
        n >= 1,
        size >= 1,
    ensures
        split_on(link_query(n, size, sort, folder), '&') == link_segments(n, size, sort, folder),
        link_segments(n, size, sort, folder).map_values(|seg: Seq<char>| form_pair(seg))
            == link_pairs(n, size, sort, folder),
        forall|i: int|
            0 <= i < link_segments(n, size, sort, folder).len() ==> (#[trigger] link_segments(
                n,
                size,
                sort,
                folder,
            )[i]).len() > 0,
{
    reveal_strlit("&");
    lemma_keys();
    let d1 = decimal_of(n as nat);
    let d2 = decimal_of(size as nat);
    let joined = join_commas(sort);
    lemma_digits_plain(n as nat);
    lemma_digits_plain(size as nat);
    lemma_plain_decodes(d1);
    lemma_plain_decodes(d2);
    lemma_form_round_trip(joined);
    lemma_form_round_trip(folder);
    let s1 = segment("page"@, d1);
    let s2 = segment("page_size"@, d2);
    let s3 = segment("sort_by"@, form_encoded(joined));
    let s4 = segment("folder"@, form_encoded(folder));
    lemma_segment("page"@, d1, d1);
    lemma_segment("page_size"@, d2, d2);
    lemma_segment("sort_by"@, form_encoded(joined), joined);
    lemma_segment("folder"@, form_encoded(folder), folder);
    let q = link_query(n, size, sort, folder);
    lemma_split_without_sep(s1, '&');
    lemma_split_suffix(s1, s2, '&');
    let head = s1 + seq!['&'] + s2;
    assert("&"@ =~= seq!['&']);
    if sort.len() > 0 {
        lemma_split_suffix(head, s3, '&');
        lemma_split_suffix(head + seq!['&'] + s3, s4, '&');
        assert(q =~= head + seq!['&'] + s3 + seq!['&'] + s4);
    } else {
        lemma_split_suffix(head, s4, '&');
        assert(q =~= head + seq!['&'] + s4);
    }
    assert(split_on(q, '&') =~= link_segments(n, size, sort, folder));
    assert(link_segments(n, size, sort, folder).map_values(|seg: Seq<char>| form_pair(seg))
        =~= link_pairs(n, size, sort, folder));
}

/// The decoded pairs of the query of the link to page `n`.
pub proof fn lemma_link_query_pairs(n: int, size: int, sort: Seq<Seq<char>>, folder: Seq<char>)
    requires
        n >= 1,
        size >= 1,
    ensures
        form_pairs(link_query(n, size, sort, folder)) == link_pairs(n, size, sort, folder),
{
    lemma_link_segments(n, size, sort, folder);
    lemma_non_empty_keeps(link_segments(n, size, sort, folder));
}

proof fn lemma_link_lookups(n: int, size: int, sort: Seq<Seq<char>>, folder: Seq<char>)
    ensures
        lookup_param(link_pairs(n, size, sort, folder), "page"@) == Some(decimal_of(n as nat)),
        lookup_param(link_pairs(n, size, sort, folder), "page_size"@) == Some(
            decimal_of(size as nat),
        ),
        lookup_param(link_pairs(n, size, sort, folder), "sort_by"@) == if sort.len() > 0 {
            Some(join_commas(sort))
        } else {
            None
        },
        lookup_param(link_pairs(n, size, sort, folder), "folder"@) == Some(folder),
        lookup_param(link_pairs(n, size, sort, folder), "collection_id"@).is_none(),
{
    lemma_keys();
    let pairs = link_pairs(n, size, sort, folder);
    let p1 = pairs.drop_first();
    let p2 = p1.drop_first();
    let p3 = p2.drop_first();
    let kc = "collection_id"@;
    let d2 = decimal_of(size as nat);
    assert(pairs[0].0 == "page"@);
    assert(p1[0] == ("page_size"@, d2));
    assert(lookup_param(p1, "page_size"@) == Some(d2));
    if sort.len() > 0 {
        let p4 = p3.drop_first();
        assert(p2[0] == ("sort_by"@, join_commas(sort)));
        assert(p3[0] == ("folder"@, folder));
        assert(p4.len() == 0);
        assert(lookup_param(p2, "sort_by"@) == Some(join_commas(sort)));
        assert(lookup_param(p1, "sort_by"@) == Some(join_commas(sort)));
        assert(lookup_param(p3, "folder"@) == Some(folder));
        assert(lookup_param(p2, "folder"@) == Some(folder));
        assert(lookup_param(p1, "folder"@) == Some(folder));
        assert(lookup_param(p4, kc).is_none());
        assert(lookup_param(p3, kc).is_none());
        assert(lookup_param(p2, kc).is_none());
        assert(lookup_param(p1, kc).is_none());
    } else {
        assert(p2[0] == ("folder"@, folder));
        assert(p3.len() == 0);
        assert(lookup_param(p3, "sort_by"@).is_none());
        assert(lookup_param(p2, "sort_by"@).is_none());
        assert(lookup_param(p1, "sort_by"@).is_none());
        assert(lookup_param(p2, "folder"@) == Some(folder));
        assert(lookup_param(p1, "folder"@) == Some(folder));
        assert(lookup_param(p3, kc).is_none());
        assert(lookup_param(p2, kc).is_none());
        assert(lookup_param(p1, kc).is_none());
    }
}

/// Reading back the query of the link to page `n` gives page `n`, the
/// request's page size, sort tokens and folder, and no collection; so any
/// request read from it asks for the same page size, sort order and folder.
/// Sort tokens must be non-empty and free of commas, as the comma-separated
/// `sort_by` parameter cannot carry others.
pub proof fn lemma_link_round_trip(n: int, req: ListingRequest)
    requires
        1 <= n <= i64::MAX,
        forall|i: int|
            0 <= i < req.sort_spec().len() ==> (#[trigger] req.sort_spec()[i]).len() > 0 && lacks(
                req.sort_spec()[i],
                ',',
            ),
    ensures
        ({
            let pairs = form_pairs(
                link_query(n, req.page_size_spec(), req.sort_spec(), req.folder_spec()),
            );
            &&& query_valid(pairs)
            &&& number_param(lookup_param(pairs, "page"@), i64::MAX as int) == Some(Some(n))
            &&& number_param(lookup_param(pairs, "page_size"@), i64::MAX as int) == Some(
                Some(req.page_size_spec()),
            )
            &&& lookup_param(pairs, "collection_id"@).is_none()
            &&& sort_param(lookup_param(pairs, "sort_by"@)) == req.sort_spec()
            &&& lookup_param(pairs, "folder"@) == Some(req.folder_spec())
            &&& forall|r: ListingRequest|
                request_of(r, pairs) ==> r.page_spec() == n && r.page_size_spec()
                    == req.page_size_spec() && r.sort_spec() == req.sort_spec() && r.folder_spec()
                    == req.folder_spec() && r.collection_id.is_none()
        }),
{
    let size = req.page_size_spec();
    let sort = req.sort_spec();
    let folder = req.folder_spec();
    lemma_link_query_pairs(n, size, sort, folder);
    lemma_link_lookups(n, size, sort, folder);
    lemma_decimal_round_trip(n as nat);
    lemma_decimal_round_trip(size as nat);
    if sort.len() > 0 {
        lemma_split_joined(sort);
        lemma_non_empty_keeps(sort);
    } else {
        assert(sort =~= Seq::<Seq<char>>::empty());
    }
}

/// Whether the query of the link to page `n` reads back as a request for
/// page `n` with the page size, sort tokens and folder of `req`, and no
/// collection.
pub open spec fn reads_back_as(n: int, req: ListingRequest) -> bool {
    let pairs = form_pairs(link_query(n, req.page_size_spec(), req.sort_spec(), req.folder_spec()));
    &&& query_valid(pairs)
    &&& forall|r: ListingRequest|
        request_of(r, pairs) ==> r.page_spec() == n && r.page_size_spec() == req.page_size_spec()
            && r.sort_spec() == req.sort_spec() && r.folder_spec() == req.folder_spec()
            && r.collection_id.is_none()
}

/// Every link of a page that leads anywhere reads back as the request that
/// it was built from, for the page it names.
pub proof fn lemma_links_read_back(base: Seq<char>, req: ListingRequest, total_pages: int)
    requires
        total_pages <= i64::MAX,
        forall|i: int|
            0 <= i < req.sort_spec().len() ==> (#[trigger] req.sort_spec()[i]).len() > 0 && lacks(
                req.sort_spec()[i],
                ',',
            ),
    ensures
        ({
            let c = current_of(req, total_pages);
            &&& current_link_spec(base, req, total_pages) == link_spec(base, c, req)
                && reads_back_as(c, req)
            &&& first_link_spec(base, req, total_pages).len() > 0 ==> first_link_spec(
                base,
                req,
                total_pages,
            ) == link_spec(base, 1, req) && reads_back_as(1, req)
            &&& previous_link_spec(base, req, total_pages).len() > 0 ==> previous_link_spec(
                base,
                req,
                total_pages,
            ) == link_spec(base, c - 1, req) && reads_back_as(c - 1, req)
            &&& next_link_spec(base, req, total_pages).len() > 0 ==> next_link_spec(
                base,
                req,
                total_pages,
            ) == link_spec(base, c + 1, req) && reads_back_as(c + 1, req)
            &&& last_link_spec(base, req, total_pages).len() > 0 ==> last_link_spec(
                base,
                req,
                total_pages,
            ) == link_spec(base, total_pages, req) && reads_back_as(total_pages, req)
        }),
{
    let c = current_of(req, total_pages);
    lemma_link_round_trip(c, req);
    lemma_link_round_trip(1, req);
    if c > 1 {
        lemma_link_round_trip(c - 1, req);
    }
    if c < total_pages {
        lemma_link_round_trip(c + 1, req);
        lemma_link_round_trip(total_pages, req);
    }
}

/// The current link names the clamped page: reading back its query gives
/// the requested page clamped into `[1, total_pages]` (1 when there are no
/// pages), never a page outside that range.
pub proof fn lemma_current_link_page(base: Seq<char>, req: ListingRequest, total_pages: int)
    ensures
        ({
            let c = current_of(req, total_pages);
            let q = link_query(c, req.page_size_spec(), req.sort_spec(), req.folder_spec());
            &&& current_link_spec(base, req, total_pages) == base + "?"@ + q
            &&& number_param(lookup_param(form_pairs(q), "page"@), i64::MAX as int) == Some(
                Some(c),
            )
            &&& 1 <= c
            &&& (total_pages >= 1 ==> c <= total_pages)
            &&& (1 <= req.page_spec() <= total_pages ==> c == req.page_spec())
        }),
{
    let c = current_of(req, total_pages);
    lemma_link_query_pairs(c, req.page_size_spec(), req.sort_spec(), req.folder_spec());
    lemma_link_lookups(c, req.page_size_spec(), req.sort_spec(), req.folder_spec());
    lemma_decimal_round_trip(c as nat);
}

/// The five navigation links of a page; a link that leads nowhere is empty.
#[derive(Debug, Clone)]
pub struct Links {
    pub first: String,
    pub next: String,
    pub current: String,
    pub previous: String,
    pub last: String,
}

/// Joins tokens with `,`.
pub fn join_tokens(ts: &Vec<String>) -> (r: String)
    ensures
        r@ == join_commas(ts.deep_view()),
{
    let ghost v = ts.deep_view();
    let mut s = String::new();
    let n = ts.len();
    let mut i: usize = 0;
    while i < n
        invariant
            n == ts@.len(),
            v == ts.deep_view(),
            0 <= i <= n,
            s@ == join_commas(v.take(i as int)),
        decreases n - i,
    {
        assert(v.take(i + 1).drop_last() =~= v.take(i as int));
        if i > 0 {
            s.append(",");
        }
        s.append(ts[i].as_str());
        proof {
            if i == 0 {
                assert(Seq::<char>::empty() + ts@[0]@ =~= ts@[0]@);
            }
        }
        i = i + 1;
    }
    assert(v.take(n as int) =~= v);
    s
}

/// Renders the link to page `page` of the listing at `base`.
pub fn build_link(base: &str, page: i64, req: &ListingRequest) -> (r: String)
    requires
        page >= 1,
    ensures
        r@ == link_spec(base@, page as int, *req),
{
    let mut url = String::from_str(base);
    url.append("?");
    let ghost head = url@;
    url.append("page");
    url.append("=");
    let p = decimal(page as u64);
    url.append(p.as_str());
    url.append("&");
    url.append("page_size");
    url.append("=");
    let size = decimal(req.get_page_size() as u64);
    url.append(size.as_str());
    let sort_by = req.get_sort_by();
    if sort_by.len() > 0 {
        url.append("&");
        url.append("sort_by");
        url.append("=");
        let joined = join_tokens(sort_by);
        let encoded = form_encode(joined.as_str());
        url.append(encoded.as_str());
    }
    url.append("&");
    url.append("folder");
    url.append("=");
    let folder = req.get_folder();
    let encoded_folder = form_encode(folder.as_str());
    url.append(encoded_folder.as_str());
    assert(url@ =~= head + link_query(
        page as int,
        req.page_size_spec(),
        req.sort_spec(),
        req.folder_spec(),
    ));
    url
}

impl Links {
    /// The links of the page that `req` asks for, among `total_pages`
    /// pages of the listing at `base` (an absolute URL such as
    /// `https://host/photos`). The current page is the requested one
    /// clamped into `[1, total_pages]`.
    pub fn new(req: &ListingRequest, total_pages: i64, base: &str) -> (r: Links)
        ensures
            r.first@ == first_link_spec(base@, *req, total_pages as int),
            r.previous@ == previous_link_spec(base@, *req, total_pages as int),
            r.current@ == current_link_spec(base@, *req, total_pages as int),
            r.next@ == next_link_spec(base@, *req, total_pages as int),
            r.last@ == last_link_spec(base@, *req, total_pages as int),
    {
        let current_page = crate::page::clamp_current_page(req.get_page(), total_pages);
        let (first, previous) = if current_page == 1 {
            (String::new(), String::new())
        } else {
            (build_link(base, 1, req), build_link(base, current_page - 1, req))
        };
        let (next, last) = if current_page >= total_pages {
            (String::new(), String::new())
        } else {
            (build_link(base, current_page + 1, req), build_link(base, total_pages, req))
        };
        let current = build_link(base, current_page, req);
        Links { first, next, current, previous, last }
    }

    /// Links that all lead nowhere.
    pub fn default() -> (r: Links)
        ensures
            r.first@.len() == 0,
            r.next@.len() == 0,
            r.current@.len() == 0,
            r.previous@.len() == 0,
            r.last@.len() == 0,
    {
        Links {
            current: String::new(),
            first: String::new(),
            next: String::new(),
            previous: String::new(),
            last: String::new(),
        }
    }
}

} // verus!
