use scarlett_listing::error::ServiceError;
use scarlett_listing::links::{build_link, Links};
use scarlett_listing::request::{find_param, split_sort_tokens, ListingRequest};

fn query_of(link: &str) -> &str {
    &link[link.find('?').unwrap() + 1..]
}

#[test]
fn query_is_read_into_request() {
    let req =
        ListingRequest::from_query("page=2&page_size=20&sort_by=-rating%2Cid&folder=a+b").unwrap();
    assert_eq!(req.page, Some(2));
    assert_eq!(req.page_size, Some(20));
    assert_eq!(req.sort_by, vec!["-rating".to_string(), "id".to_string()]);
    assert_eq!(req.folder, Some("a b".to_string()));
    assert_eq!(req.collection_id, None);
}

#[test]
fn query_with_collection_and_plain_commas() {
    let req = ListingRequest::from_query("collection_id=7&sort_by=rating,-id&unknown=1").unwrap();
    assert_eq!(req.collection_id, Some(7));
    assert_eq!(req.sort_by, vec!["rating".to_string(), "-id".to_string()]);
    assert_eq!(req.page, None);
    assert_eq!(req.folder, None);
    assert_eq!(req.get_page(), 1);
}

#[test]
fn malformed_numbers_are_rejected() {
    assert_eq!(
        ListingRequest::from_query("page=two").unwrap_err(),
        ServiceError::ValidationFailure
    );
    assert_eq!(
        ListingRequest::from_query("page_size=-5").unwrap_err(),
        ServiceError::ValidationFailure
    );
    assert_eq!(
        ListingRequest::from_query("collection_id=3000000000").unwrap_err(),
        ServiceError::ValidationFailure
    );
    assert_eq!(
        ListingRequest::from_query("page=").unwrap_err(),
        ServiceError::ValidationFailure
    );
}

#[test]
fn sort_value_drops_empty_parts() {
    assert_eq!(split_sort_tokens("a,,b,"), vec!["a".to_string(), "b".to_string()]);
    assert!(split_sort_tokens("").is_empty());
    assert_eq!(split_sort_tokens("-x"), vec!["-x".to_string()]);
}

#[test]
fn first_pair_of_a_name_counts() {
    let pairs = vec![
        ("page".to_string(), "1".to_string()),
        ("folder".to_string(), "x".to_string()),
        ("page".to_string(), "9".to_string()),
    ];
    assert_eq!(find_param(&pairs, "page"), Some("1".to_string()));
    assert_eq!(find_param(&pairs, "sort_by"), None);
}

#[test]
fn link_round_trips_to_request() {
    let original = ListingRequest::new(
        Some(5),
        Some(15),
        vec!["-dateCreated".to_string(), "id".to_string()],
        None,
        Some("2020/Ski & Snow".to_string()),
    );
    for n in [1i64, 3, 42] {
        let link = build_link("https://example.com/photos", n, &original);
        let back = ListingRequest::from_query(query_of(&link)).unwrap();
        assert_eq!(back.get_page(), n);
        assert_eq!(back.get_page_size(), original.get_page_size());
        assert_eq!(back.sort_by, original.sort_by);
        assert_eq!(back.get_folder(), original.get_folder());
        assert_eq!(back.collection_id, None);
    }
}

#[test]
fn round_trip_without_sort_or_folder() {
    let original = ListingRequest::new(None, None, Vec::new(), None, None);
    let link = build_link("https://example.com/photos", 1, &original);
    let back = ListingRequest::from_query(query_of(&link)).unwrap();
    assert_eq!(back.get_page_size(), original.get_page_size());
    assert!(back.sort_by.is_empty());
    assert_eq!(back.get_folder(), "");
}

#[test]
fn current_link_reads_back_as_clamped_page() {
    let req = ListingRequest::new(Some(50), Some(10), Vec::new(), None, None);
    let links = Links::new(&req, 4, "https://example.com/photos");
    let back = ListingRequest::from_query(query_of(&links.current)).unwrap();
    assert_eq!(back.page, Some(4));
}
