//! The listing query: filter, stable-position window, sort order and page
//! size, and the steps that lead from a request to a page.
use vstd::prelude::*;
use crate::collections::Collection;
use crate::error::ServiceError;
use crate::links::{
    current_link_spec, first_link_spec, last_link_spec, next_link_spec, previous_link_spec, Links,
};
use crate::page::{clamp_page, offset_spec, page_offset, total_pages_spec, Page, PageMetadata};
use crate::request::ListingRequest;
use crate::sorting::{keys_view, order_by_clause, order_sql, parse_all_spec, SortDirection, SortFieldTable, SortKey};

verus! {

/// Everything up to the filter clause: the read model joined to the stable
/// ordering, numbered by stable position and counted before the window.
pub open spec fn select_head() -> Seq<char> {
    "SELECT id, file_path, folder, file_name, file_hash, rating, date_created, date_updated, original_width, original_height, orientation, rotation, ineligible_for_wallpaper, anonymous_entities, suggested_entity_name, entities, tags, wallpapers, total FROM (SELECT row_number() OVER (ORDER BY po.position) AS position, COUNT(*) OVER () AS total, pa.* FROM photos_all pa INNER JOIN photo_ordering po ON pa.id = po.photo_id"@
}

/// Closes the positioned subquery and keeps the rows after the offset.
pub open spec fn window_sql() -> Seq<char> {
    ") t WHERE t.position > $1 ORDER BY "@
}

/// The filter clause that a folder prefix gives; the prefix is bound as `$3`.
pub open spec fn folder_filter_sql() -> Seq<char> {
    " WHERE left(pa.folder, char_length($3)) = $3"@
}

/// The filter clause: a collection's predicate, else a folder prefix, else
/// nothing.
pub open spec fn filter_sql(collection: Option<Seq<char>>, folder: Seq<char>) -> Seq<char> {
    match collection {
        Some(p) => " WHERE ("@ + p + ")"@,
        None => if folder.len() > 0 {
            folder_filter_sql()
        } else {
            Seq::empty()
        },
    }
}

/// Counts every row that passes the filter, whatever page is asked for.
pub open spec fn count_head() -> Seq<char> {
    "SELECT COUNT(*) FROM photos_all pa INNER JOIN photo_ordering po ON pa.id = po.photo_id"@
}

/// The filter clause of the counting statement: as [`filter_sql`], with the
/// folder prefix bound as `$1`.
pub open spec fn count_filter_sql(collection: Option<Seq<char>>, folder: Seq<char>) -> Seq<char> {
    match collection {
        Some(p) => " WHERE ("@ + p + ")"@,
        None => if folder.len() > 0 {
            " WHERE left(pa.folder, char_length($1)) = $1"@
        } else {
            Seq::empty()
        },
    }
}

/// The statement that counts the rows matching the filter.
pub open spec fn count_sql(collection: Option<Seq<char>>, folder: Seq<char>) -> Seq<char> {
    count_head() + count_filter_sql(collection, folder)
}

/// The whole statement.
pub open spec fn listing_sql(
    collection: Option<Seq<char>>,
    folder: Seq<char>,
    keys: Seq<(Seq<char>, SortDirection)>,
) -> Seq<char> {
    select_head() + filter_sql(collection, folder) + window_sql() + order_sql(keys) + " LIMIT $2"@
}

/// The folder prefix bound as `$3`, if the statement has one.
pub open spec fn folder_param(collection: Option<Seq<char>>, folder: Seq<char>) -> Option<Seq<char>> {
    if collection.is_none() && folder.len() > 0 {
        Some(folder)
    } else {
        None
    }
}

/// A statement and its parameters: `$1` the offset, `$2` the page size,
/// `$3` the folder prefix where there is one. `count_sql` counts the rows
/// that match the same filter; it takes the folder prefix, where there is
/// one, as `$1` and no other parameter. It is run where the page itself
/// comes back empty and so carries no count.
#[derive(Debug, Clone)]
pub struct ListingQuery {
    pub sql: String,
    pub count_sql: String,
    pub offset: i64,
    pub limit: i64,
    pub folder: Option<String>,
}

impl ListingQuery {
    pub open spec fn folder_spec(&self) -> Option<Seq<char>> {
        match self.folder {
            Some(f) => Some(f@),
            None => None,
        }
    }

    /// Whether this is the statement for `req`, filtered by `collection`
    /// if one is given, and ordered by `keys`.
    pub open spec fn is_for(
        &self,
        req: ListingRequest,
        collection: Option<Seq<char>>,
        keys: Seq<(Seq<char>, SortDirection)>,
    ) -> bool {
        &&& self.sql@ == listing_sql(collection, req.folder_spec(), keys)
        &&& self.count_sql@ == count_sql(collection, req.folder_spec())
        &&& self.offset == offset_spec(req.page_spec(), req.page_size_spec())
        &&& self.limit == req.page_size_spec()
        &&& self.folder_spec() == folder_param(collection, req.folder_spec())
    }
}

/// A collection's predicate alone decides the filter: the folder that the
/// request carries changes neither the statement nor its parameters.
pub proof fn lemma_collection_overrides_folder(
    predicate: Seq<char>,
    folder_a: Seq<char>,
    folder_b: Seq<char>,
    keys: Seq<(Seq<char>, SortDirection)>,
)
    ensures
        listing_sql(Some(predicate), folder_a, keys) == listing_sql(Some(predicate), folder_b, keys),
        count_sql(Some(predicate), folder_a) == count_sql(Some(predicate), folder_b),
        folder_param(Some(predicate), folder_a) == folder_param(Some(predicate), folder_b),
        folder_param(Some(predicate), folder_a).is_none(),
{
}

/// Whether the offset of `req` fits in an `i64`.
pub open spec fn offset_fits(req: ListingRequest) -> bool {
    offset_spec(req.page_spec(), req.page_size_spec()) <= i64::MAX
}

/// Builds the statement for `req`. A collection's predicate, where one is
/// given, replaces the request's own folder filter. Fails with
/// `ValidationFailure` where the offset does not fit in an `i64`.
pub fn build_listing_query(
    req: &ListingRequest,
    collection: Option<&str>,
    keys: &Vec<SortKey>,
) -> (r: Result<ListingQuery, ServiceError>)
    ensures
        match r {
            Ok(q) => offset_fits(*req) && q.is_for(
                *req,
                match collection {
                    Some(c) => Some(c@),
                    None => None,
                },
                keys_view(keys@),
            ),
            Err(e) => !offset_fits(*req) && e == ServiceError::ValidationFailure,
        },
{
    let page = req.get_page();
    let page_size = req.get_page_size();
    let offset = match page_offset(page, page_size) {
        Some(o) => o,
        None => return Err(ServiceError::ValidationFailure),
    };
    let folder = req.get_folder();
    let ghost coll: Option<Seq<char>> = match collection {
        Some(c) => Some(c@),
        None => None,
    };
    let mut sql = String::from_str(
        "SELECT id, file_path, folder, file_name, file_hash, rating, date_created, date_updated, original_width, original_height, orientation, rotation, ineligible_for_wallpaper, anonymous_entities, suggested_entity_name, entities, tags, wallpapers, total FROM (SELECT row_number() OVER (ORDER BY po.position) AS position, COUNT(*) OVER () AS total, pa.* FROM photos_all pa INNER JOIN photo_ordering po ON pa.id = po.photo_id",
    );
    let ghost head = sql@;
    let mut count = String::from_str(
        "SELECT COUNT(*) FROM photos_all pa INNER JOIN photo_ordering po ON pa.id = po.photo_id",
    );
    let ghost count_start = count@;
    let folder_param = match collection {
        Some(p) => {
            sql.append(" WHERE (");
            sql.append(p);
            sql.append(")");
            count.append(" WHERE (");
            count.append(p);
            count.append(")");
            None
        },
        None => {
            if folder.unicode_len() > 0 {
                sql.append(" WHERE left(pa.folder, char_length($3)) = $3");
                count.append(" WHERE left(pa.folder, char_length($1)) = $1");
                Some(folder)
            } else {
                None
            }
        },
    };
    assert(count@ =~= count_start + count_filter_sql(coll, req.folder_spec()));
    assert(sql@ =~= head + filter_sql(coll, req.folder_spec()));
    let ghost filtered = sql@;
    sql.append(") t WHERE t.position > $1 ORDER BY ");
    let order = order_by_clause(keys);
    sql.append(order.as_str());
    sql.append(" LIMIT $2");
    assert(sql@ =~= listing_sql(coll, req.folder_spec(), keys_view(keys@)));
    Ok(ListingQuery { sql, count_sql: count, offset, limit: page_size, folder: folder_param })
}

/// The first step of a listing.
#[derive(Debug, Clone)]
pub enum ListingStep {
    /// Look the collection up, then continue with [`after_collection`].
    ResolveCollection(i32),
    /// Run this statement, then assemble the page.
    Run(ListingQuery),
}

/// The first step for `req`: its sort tokens are checked, then either the
/// named collection is to be resolved, or the statement is ready.
pub fn begin_listing(req: &ListingRequest, table: &SortFieldTable) -> (r: Result<
    ListingStep,
    ServiceError,
>)
    ensures
        match r {
            Ok(ListingStep::ResolveCollection(id)) => req.collection_id == Some(id)
                && parse_all_spec(table.entries(), req.sort_spec()).is_some() && offset_fits(*req),
            Ok(ListingStep::Run(q)) => req.collection_id.is_none() && (exists|ks|
                parse_all_spec(table.entries(), req.sort_spec()) == Some(ks) && q.is_for(
                    *req,
                    None,
                    ks,
                )),
            Err(e) => e == ServiceError::ValidationFailure && (parse_all_spec(
                table.entries(),
                req.sort_spec(),
            ).is_none() || !offset_fits(*req)),
        },
        r.is_err() <==> (parse_all_spec(table.entries(), req.sort_spec()).is_none()
            || !offset_fits(*req)),
{
    let keys = match table.determine_sorting(req.get_sort_by()) {
        Ok(k) => k,
        Err(e) => return Err(e),
    };
    match req.collection_id {
        Some(id) => {
            if page_offset(req.get_page(), req.get_page_size()).is_none() {
                return Err(ServiceError::ValidationFailure);
            }
            Ok(ListingStep::ResolveCollection(id))
        },
        None => match build_listing_query(req, None, &keys) {
            Ok(q) => Ok(ListingStep::Run(q)),
            Err(e) => Err(e),
        },
    }
}

/// The statement for `req` once its collection has been looked up:
/// `found` is the stored collection, or `None` where no collection has the
/// requested id. An unknown collection fails with `NotFound`, and no
/// statement is built.
pub fn after_collection(
    req: &ListingRequest,
    table: &SortFieldTable,
    found: Option<Collection>,
) -> (r: Result<ListingQuery, ServiceError>)
    ensures
        found.is_none() ==> r == Err::<ListingQuery, ServiceError>(ServiceError::NotFound),
        match r {
            Ok(q) => found.is_some() && (exists|ks|
                parse_all_spec(table.entries(), req.sort_spec()) == Some(ks) && q.is_for(
                    *req,
                    Some(found.unwrap().query@),
                    ks,
                )),
            Err(e) => found.is_none() && e == ServiceError::NotFound || found.is_some()
                && e == ServiceError::ValidationFailure && (parse_all_spec(
                table.entries(),
                req.sort_spec(),
            ).is_none() || !offset_fits(*req)),
        },
        found.is_some() ==> (r.is_err() <==> (parse_all_spec(
            table.entries(),
            req.sort_spec(),
        ).is_none() || !offset_fits(*req))),
{
    let collection = match found {
        Some(c) => c,
        None => return Err(ServiceError::NotFound),
    };
    let keys = match table.determine_sorting(req.get_sort_by()) {
        Ok(k) => k,
        Err(e) => return Err(e),
    };
    build_listing_query(req, Some(collection.query.as_str()), &keys)
}

/// The count that the rows carry: the one beside the first row; none when
/// there are no rows.
pub open spec fn rows_count<T>(rows: Seq<(T, i64)>) -> Option<i64> {
    if rows.len() > 0 {
        Some(rows[0].1)
    } else {
        None
    }
}

/// Separates the items from the match count that each row carries. An
/// empty page carries no count: the listing's `count_sql` then gives it.
pub fn split_counted_rows<T>(rows: Vec<(T, i64)>) -> (r: (Vec<T>, Option<i64>))
    ensures
        r.0@ == rows@.map_values(|x: (T, i64)| x.0),
        r.1 == rows_count(rows@),
{
    let ghost orig = rows@;
    let count: Option<i64> = if rows.len() > 0 {
        Some(rows[0].1)
    } else {
        None
    };
    let mut rows = rows;
    let mut reversed: Vec<T> = Vec::new();
    while rows.len() > 0
        invariant
            rows@ == orig.take(rows@.len() as int),
            rows@.len() <= orig.len(),
            reversed@.len() + rows@.len() == orig.len(),
            forall|j: int|
                0 <= j < reversed@.len() ==> #[trigger] reversed@[j] == orig[orig.len() - 1 - j].0,
        decreases rows@.len(),
    {
        let (item, _count) = rows.pop().unwrap();
        reversed.push(item);
        assert(rows@ =~= orig.take(rows@.len() as int));
    }
    let mut items: Vec<T> = Vec::new();
    while reversed.len() > 0
        invariant
            items@.len() + reversed@.len() == orig.len(),
            forall|j: int|
                0 <= j < reversed@.len() ==> #[trigger] reversed@[j] == orig[orig.len() - 1 - j].0,
            forall|j: int| 0 <= j < items@.len() ==> #[trigger] items@[j] == orig[j].0,
        decreases reversed@.len(),
    {
        let item = reversed.pop().unwrap();
        items.push(item);
    }
    assert(items@ =~= orig.map_values(|x: (T, i64)| x.0));
    (items, count)
}

/// Assembles the page for `req` from its items and the number of records
/// that matched the filter (whatever page was asked for). The current page
/// is the requested one clamped into the pages there are; the links lead to
/// the listing at `base`.
pub fn assemble_page<T>(req: &ListingRequest, items: Vec<T>, total: i64, base: &str) -> (r: Page<T>)
    ensures
        r.items == items,
        r.metadata.total_count == total,
        r.metadata.page_size == req.page_size_spec(),
        r.metadata.total_pages == total_pages_spec(total as int, req.page_size_spec()),
        r.metadata.current_page == clamp_page(req.page_spec(), r.metadata.total_pages as int),
        r.links.first@ == first_link_spec(base@, *req, r.metadata.total_pages as int),
        r.links.previous@ == previous_link_spec(base@, *req, r.metadata.total_pages as int),
        r.links.current@ == current_link_spec(base@, *req, r.metadata.total_pages as int),
        r.links.next@ == next_link_spec(base@, *req, r.metadata.total_pages as int),
        r.links.last@ == last_link_spec(base@, *req, r.metadata.total_pages as int),
{
    let metadata = PageMetadata::new(req.get_page(), req.get_page_size(), total);
    let links = Links::new(req, metadata.total_pages, base);
    Page::new(metadata, links, items)
}

} // verus!
