use scarlett_listing::collections::{Collection, CreateAction};
use scarlett_listing::error::ServiceError;
use scarlett_listing::links::{build_link, join_tokens, Links};
use scarlett_listing::listing::{
    after_collection, assemble_page, begin_listing, build_listing_query, split_counted_rows,
    ListingStep,
};
use scarlett_listing::page::{clamp_current_page, page_offset, total_pages, Page, PageMetadata};
use scarlett_listing::request::{ListingRequest, DEFAULT_PAGE_SIZE};
use scarlett_listing::sorting::{order_by_clause, SortDirection, SortFieldTable};

const BASE: &str = "https://example.com/photos";

fn request(page: i64, size: i64, sort: &[&str], folder: Option<&str>) -> ListingRequest {
    ListingRequest::new(
        Some(page),
        Some(size),
        sort.iter().map(|s| s.to_string()).collect(),
        None,
        folder.map(|f| f.to_string()),
    )
}

#[test]
fn descending_token_parses_to_desc() {
    let table = SortFieldTable::photos();
    let key = table.parse_token(&"-rating".to_string()).unwrap();
    assert_eq!(key.column, "rating");
    assert_eq!(key.direction, SortDirection::Desc);
}

#[test]
fn plain_token_parses_to_asc() {
    let table = SortFieldTable::photos();
    let key = table.parse_token(&"rating".to_string()).unwrap();
    assert_eq!(key.column, "rating");
    assert_eq!(key.direction, SortDirection::Asc);
}

#[test]
fn camel_case_alias_maps_to_column() {
    let table = SortFieldTable::photos();
    let key = table.parse_token(&"-dateCreated".to_string()).unwrap();
    assert_eq!(key.column, "date_created");
    assert_eq!(key.direction, SortDirection::Desc);
}

#[test]
fn unknown_alias_is_a_validation_failure() {
    let table = SortFieldTable::photos();
    assert_eq!(
        table.parse_token(&"-shoe_size".to_string()).unwrap_err(),
        ServiceError::ValidationFailure
    );
    let tokens = vec!["rating".to_string(), "nope".to_string()];
    assert_eq!(
        table.determine_sorting(&tokens).unwrap_err(),
        ServiceError::ValidationFailure
    );
}

#[test]
fn sort_order_of_tokens_is_kept() {
    let table = SortFieldTable::photos();
    let tokens = vec!["-rating".to_string(), "fileName".to_string()];
    let keys = table.determine_sorting(&tokens).unwrap();
    assert_eq!(order_by_clause(&keys), "rating DESC, file_name ASC");
}

#[test]
fn empty_sort_list_orders_by_stable_position() {
    let table = SortFieldTable::photos();
    let keys = table.determine_sorting(&Vec::new()).unwrap();
    assert!(keys.is_empty());
    assert_eq!(order_by_clause(&keys), " t.position ");
}

#[test]
fn offset_of_first_page_selects_positions_one_to_twenty() {
    // rows with position > 0, at most 20 of them: positions 1..=20
    assert_eq!(page_offset(1, 20), Some(0));
}

#[test]
fn offset_of_third_page_selects_positions_41_to_60() {
    // rows with position > 40, at most 20 of them: positions 41..=60
    assert_eq!(page_offset(3, 20), Some(40));
    let q = build_listing_query(&request(3, 20, &[], None), None, &Vec::new()).unwrap();
    assert_eq!(q.offset, 40);
    assert_eq!(q.limit, 20);
}

#[test]
fn offset_overflow_is_rejected() {
    assert_eq!(page_offset(i64::MAX, 2), None);
    let r = build_listing_query(&request(i64::MAX, 2, &[], None), None, &Vec::new());
    assert_eq!(r.unwrap_err(), ServiceError::ValidationFailure);
}

#[test]
fn total_pages_rounds_up() {
    assert_eq!(total_pages(0, 20), 0);
    assert_eq!(total_pages(1, 20), 1);
    assert_eq!(total_pages(40, 20), 2);
    assert_eq!(total_pages(41, 20), 3);
    assert_eq!(total_pages(-3, 20), 0);
}

#[test]
fn current_page_is_clamped() {
    assert_eq!(clamp_current_page(10, 3), 3);
    assert_eq!(clamp_current_page(0, 3), 1);
    assert_eq!(clamp_current_page(-4, 3), 1);
    assert_eq!(clamp_current_page(5, 0), 1);
    assert_eq!(clamp_current_page(2, 3), 2);
}

#[test]
fn empty_total_gives_no_pages_and_only_a_current_link() {
    let meta = PageMetadata::new(4, 20, 0);
    assert_eq!(meta.total_pages, 0);
    assert_eq!(meta.current_page, 1);
    let links = Links::new(&request(4, 20, &[], None), meta.total_pages, BASE);
    assert_eq!(links.first, "");
    assert_eq!(links.previous, "");
    assert_eq!(links.next, "");
    assert_eq!(links.last, "");
    assert_eq!(links.current, "https://example.com/photos?page=1&page_size=20&folder=");
}

#[test]
fn middle_page_has_all_links() {
    let req = request(2, 20, &["-rating", "id"], Some("a b"));
    let links = Links::new(&req, 3, BASE);
    assert_eq!(
        links.current,
        "https://example.com/photos?page=2&page_size=20&sort_by=-rating%2Cid&folder=a+b"
    );
    assert_eq!(
        links.first,
        "https://example.com/photos?page=1&page_size=20&sort_by=-rating%2Cid&folder=a+b"
    );
    assert_eq!(
        links.previous,
        "https://example.com/photos?page=1&page_size=20&sort_by=-rating%2Cid&folder=a+b"
    );
    assert_eq!(
        links.next,
        "https://example.com/photos?page=3&page_size=20&sort_by=-rating%2Cid&folder=a+b"
    );
    assert_eq!(
        links.last,
        "https://example.com/photos?page=3&page_size=20&sort_by=-rating%2Cid&folder=a+b"
    );
}

#[test]
fn current_link_uses_clamped_page_not_requested_page() {
    let links = Links::new(&request(9, 10, &[], None), 3, BASE);
    assert_eq!(links.current, "https://example.com/photos?page=3&page_size=10&folder=");
    assert_eq!(links.next, "");
    assert_eq!(links.last, "");
    assert_eq!(links.first, "https://example.com/photos?page=1&page_size=10&folder=");
    assert_eq!(links.previous, "https://example.com/photos?page=2&page_size=10&folder=");
}

#[test]
fn first_page_has_no_backward_links() {
    let links = Links::new(&request(1, 10, &[], None), 2, BASE);
    assert_eq!(links.first, "");
    assert_eq!(links.previous, "");
    assert_eq!(links.next, "https://example.com/photos?page=2&page_size=10&folder=");
    assert_eq!(links.last, "https://example.com/photos?page=2&page_size=10&folder=");
}

#[test]
fn single_page_has_only_current_link() {
    let links = Links::new(&request(1, 10, &[], None), 1, BASE);
    assert_eq!(links.first, "");
    assert_eq!(links.previous, "");
    assert_eq!(links.next, "");
    assert_eq!(links.last, "");
    assert_eq!(links.current, "https://example.com/photos?page=1&page_size=10&folder=");
}

#[test]
fn link_values_are_form_encoded() {
    let req = request(1, 5, &["rating"], Some("2020/Ski trip & more"));
    assert_eq!(
        build_link(BASE, 7, &req),
        "https://example.com/photos?page=7&page_size=5&sort_by=rating&folder=2020%2FSki+trip+%26+more"
    );
    let unicode = request(1, 5, &[], Some("été"));
    assert_eq!(
        build_link(BASE, 1, &unicode),
        "https://example.com/photos?page=1&page_size=5&folder=%C3%A9t%C3%A9"
    );
}

#[test]
fn links_default_is_empty() {
    let links = Links::default();
    assert_eq!(links.first, "");
    assert_eq!(links.next, "");
    assert_eq!(links.current, "");
    assert_eq!(links.previous, "");
    assert_eq!(links.last, "");
}

#[test]
fn join_tokens_uses_commas() {
    let ts = vec!["a".to_string(), "-b".to_string(), "c".to_string()];
    assert_eq!(join_tokens(&ts), "a,-b,c");
    assert_eq!(join_tokens(&Vec::new()), "");
}

#[test]
fn request_getters_coerce_and_default() {
    let req = ListingRequest::new(None, None, Vec::new(), None, None);
    assert_eq!(req.get_page(), 1);
    assert_eq!(req.get_page_size(), DEFAULT_PAGE_SIZE);
    assert_eq!(req.get_folder(), "");
    assert!(!req.has_collection_or_filters());
    let req = ListingRequest::new(Some(-2), Some(0), Vec::new(), None, Some("x".to_string()));
    assert_eq!(req.get_page(), 1);
    assert_eq!(req.get_page_size(), 1);
    assert!(req.has_collection_or_filters());
    let req = ListingRequest::new(Some(3), Some(7), Vec::new(), Some(4), Some(String::new()));
    assert_eq!(req.get_page(), 3);
    assert_eq!(req.get_page_size(), 7);
    assert!(req.has_collection_or_filters());
}

#[test]
fn collection_predicate_overrides_folder() {
    let mut req = request(1, 20, &[], Some("unrelated"));
    req.collection_id = Some(7);
    let q = build_listing_query(&req, Some("folder = 'vacation'"), &Vec::new()).unwrap();
    assert!(q.sql.contains(" WHERE (folder = 'vacation')"));
    assert!(!q.sql.contains("$3"));
    assert_eq!(q.folder, None);

    let mut other = request(1, 20, &[], Some("somewhere else"));
    other.collection_id = Some(7);
    let q2 = build_listing_query(&other, Some("folder = 'vacation'"), &Vec::new()).unwrap();
    assert_eq!(q.sql, q2.sql);
    assert_eq!(q.folder, q2.folder);
}

#[test]
fn folder_filter_is_bound_as_parameter() {
    let q = build_listing_query(&request(1, 20, &[], Some("2020")), None, &Vec::new()).unwrap();
    assert!(q.sql.contains(" WHERE left(pa.folder, char_length($3)) = $3"));
    assert_eq!(q.folder, Some("2020".to_string()));
    let unfiltered = build_listing_query(&request(1, 20, &[], None), None, &Vec::new()).unwrap();
    assert!(!unfiltered.sql.contains("WHERE left"));
    assert_eq!(unfiltered.folder, None);
}

#[test]
fn listing_statement_text() {
    let table = SortFieldTable::photos();
    let keys = table.determine_sorting(&vec!["-rating".to_string()]).unwrap();
    let q = build_listing_query(&request(2, 10, &["-rating"], None), None, &keys).unwrap();
    assert!(q.sql.starts_with("SELECT id, file_path, folder,"));
    assert!(q.sql.contains("INNER JOIN photo_ordering po ON pa.id = po.photo_id"));
    assert!(q.sql.ends_with(") t WHERE t.position > $1 ORDER BY rating DESC LIMIT $2"));
    assert_eq!(q.offset, 10);
    assert_eq!(q.limit, 10);
}

#[test]
fn unknown_collection_fails_with_not_found() {
    let table = SortFieldTable::photos();
    let mut req = request(1, 20, &[], None);
    req.collection_id = Some(404);
    match begin_listing(&req, &table).unwrap() {
        ListingStep::ResolveCollection(id) => assert_eq!(id, 404),
        ListingStep::Run(_) => panic!("a collection must be resolved first"),
    }
    assert_eq!(after_collection(&req, &table, None).unwrap_err(), ServiceError::NotFound);
}

#[test]
fn known_collection_gives_statement() {
    let table = SortFieldTable::photos();
    let mut req = request(1, 20, &["rating"], None);
    req.collection_id = Some(3);
    let c = Collection { id: 3, name: "Holidays".to_string(), query: "rating > 3".to_string() };
    let q = after_collection(&req, &table, Some(c)).unwrap();
    assert!(q.sql.contains(" WHERE (rating > 3)"));
    assert!(q.sql.ends_with("ORDER BY rating ASC LIMIT $2"));
}

#[test]
fn begin_listing_without_collection_runs_directly() {
    let table = SortFieldTable::photos();
    match begin_listing(&request(2, 5, &[], None), &table).unwrap() {
        ListingStep::Run(q) => {
            assert_eq!(q.offset, 5);
            assert!(q.sql.ends_with("ORDER BY  t.position  LIMIT $2"));
        }
        ListingStep::ResolveCollection(_) => panic!("no collection was named"),
    }
    assert_eq!(
        begin_listing(&request(1, 5, &["bogus"], None), &table).unwrap_err(),
        ServiceError::ValidationFailure
    );
}

#[test]
fn rows_split_into_items_and_total() {
    let (items, total) = split_counted_rows(vec![("a", 7i64), ("b", 7), ("c", 7)]);
    assert_eq!(items, vec!["a", "b", "c"]);
    assert_eq!(total, Some(7));
    let (none, count) = split_counted_rows::<&str>(Vec::new());
    assert!(none.is_empty());
    assert_eq!(count, None);
}

#[test]
fn page_is_assembled_from_rows() {
    let req = request(2, 2, &[], None);
    let page: Page<&str> = assemble_page(&req, vec!["c", "d"], 5, BASE);
    assert_eq!(page.items, vec!["c", "d"]);
    assert_eq!(page.metadata.total_count, 5);
    assert_eq!(page.metadata.total_pages, 3);
    assert_eq!(page.metadata.current_page, 2);
    assert_eq!(page.metadata.page_size, 2);
    assert_eq!(page.links.next, "https://example.com/photos?page=3&page_size=2&folder=");
    assert_eq!(page.links.previous, "https://example.com/photos?page=1&page_size=2&folder=");
}

#[test]
fn empty_result_page() {
    let page: Page<&str> = assemble_page(&request(3, 20, &[], None), Vec::new(), 0, BASE);
    assert!(page.items.is_empty());
    assert_eq!(page.metadata.total_pages, 0);
    assert_eq!(page.metadata.current_page, 1);
    assert_eq!(page.links.first, "");
    assert_eq!(page.links.last, "");
    assert_eq!(page.links.current, "https://example.com/photos?page=1&page_size=20&folder=");
}

#[test]
fn collection_create_is_idempotent_by_name() {
    let c = Collection { id: 1, name: "Best".to_string(), query: "rating = 5".to_string() };
    match Collection::create_action(Some(c)) {
        CreateAction::ReturnExisting(found) => assert_eq!(found.id, 1),
        CreateAction::Insert => panic!("existing collection must be returned"),
    }
    assert!(matches!(Collection::create_action(None), CreateAction::Insert));
}

#[test]
fn page_past_the_end_keeps_the_total() {
    let req = request(9, 10, &[], None);
    let page: Page<&str> = assemble_page(&req, Vec::new(), 25, BASE);
    assert!(page.items.is_empty());
    assert_eq!(page.metadata.total_count, 25);
    assert_eq!(page.metadata.total_pages, 3);
    assert_eq!(page.metadata.current_page, 3);
    assert_eq!(page.links.current, "https://example.com/photos?page=3&page_size=10&folder=");
    assert_eq!(page.links.next, "");
    assert_eq!(page.links.previous, "https://example.com/photos?page=2&page_size=10&folder=");
}

#[test]
fn count_statement_uses_the_same_filter() {
    let plain = build_listing_query(&request(4, 20, &[], None), None, &Vec::new()).unwrap();
    assert_eq!(
        plain.count_sql,
        "SELECT COUNT(*) FROM photos_all pa INNER JOIN photo_ordering po ON pa.id = po.photo_id"
    );
    let by_folder =
        build_listing_query(&request(4, 20, &[], Some("2020")), None, &Vec::new()).unwrap();
    assert!(by_folder.count_sql.ends_with(" WHERE left(pa.folder, char_length($1)) = $1"));
    let by_collection =
        build_listing_query(&request(4, 20, &[], Some("2020")), Some("rating > 3"), &Vec::new())
            .unwrap();
    assert!(by_collection.count_sql.ends_with(" WHERE (rating > 3)"));
    assert!(!by_collection.count_sql.contains("$"));
}
