use scarlett_listing::codec::{decimal, parse_decimal};
use scarlett_listing::photo::{
    build_photo_url, encode_media, extract_ratio, find_first, gcd_of, has_media_root, media_path,
    PhotoFull, PhotoRow,
};
use scarlett_listing::scan::{ScanPhotosRequest, ScanPhotosResult};

fn timestamp() -> chrono::NaiveDateTime {
    chrono::NaiveDate::from_ymd_opt(2020, 1, 2).unwrap().and_hms_opt(3, 4, 5).unwrap()
}

#[test]
fn ratio_is_reduced() {
    assert_eq!(extract_ratio(1920, 1080), "16:9");
    assert_eq!(extract_ratio(3000, 2000), "3:2");
    assert_eq!(extract_ratio(7, 7), "1:1");
    assert_eq!(extract_ratio(0, 1080), "");
    assert_eq!(extract_ratio(1920, -1), "");
}

#[test]
fn gcd_by_euclid() {
    assert_eq!(gcd_of(1920, 1080), 120);
    assert_eq!(gcd_of(9, 0), 9);
    assert_eq!(gcd_of(17, 5), 1);
}

#[test]
fn media_path_strips_library_root() {
    assert_eq!(media_path("/mnt/data/photos/2020/beach.jpg"), "2020/beach.jpg");
    assert_eq!(media_path("/mnt/photos/"), "");
    assert!(has_media_root("/mnt/data/photos/2020/beach.jpg"));
    assert!(has_media_root("/mnt/photos/"));
    assert!(!has_media_root("/elsewhere/beach.jpg"));
    assert!(!has_media_root("/mnt/photos"));
    assert!(!has_media_root("/mnt/photosé/x.jpg"));
    assert_eq!(find_first("abcabc", "ca"), Some(2));
    assert_eq!(find_first("abc", "x"), None);
}

#[test]
fn media_url_is_percent_encoded() {
    assert_eq!(
        build_photo_url("example.com", "/mnt/photos/2020/a b's.jpg"),
        "http://example.com/media/2020/a%20b%27s.jpg"
    );
    assert_eq!(encode_media("é\u{7f}x"), "%C3%A9%7Fx");
}

#[test]
fn decimal_rendering_and_parsing() {
    assert_eq!(decimal(0), "0");
    assert_eq!(decimal(1234567890), "1234567890");
    assert_eq!(parse_decimal("042"), Some(42));
    assert_eq!(parse_decimal("9223372036854775807"), Some(i64::MAX));
    assert_eq!(parse_decimal("9223372036854775808"), None);
    assert_eq!(parse_decimal(""), None);
    assert_eq!(parse_decimal("1x"), None);
}

#[test]
fn photo_full_derives_ratio_and_url() {
    let row = PhotoRow {
        id: 5,
        file_path: "/srv/photos/trip/IMG 1.jpg".to_string(),
        folder: "trip".to_string(),
        file_name: "IMG 1.jpg".to_string(),
        file_hash: "abc".to_string(),
        rating: 4,
        date_created: timestamp(),
        date_updated: timestamp(),
        original_width: 4000,
        original_height: 3000,
        orientation: "landscape".to_string(),
        rotation: 0,
        ineligible_for_wallpaper: false,
        anonymous_entities: true,
        suggested_entity_name: String::new(),
        entities: None,
        tags: Some(vec!["sea".to_string()]),
        wallpapers: None,
    };
    let (photo, count) = PhotoFull::from_paginated_row(row, 12, "cdn.example.com");
    assert_eq!(count, 12);
    assert_eq!(photo.id, 5);
    assert_eq!(photo.aspect_ratio, "4:3");
    assert_eq!(photo.media_url, "http://cdn.example.com/media/trip/IMG%201.jpg");
    assert_eq!(photo.tags, Some(vec!["sea".to_string()]));
    assert_eq!(photo.date_created, timestamp());
}

#[test]
fn scan_result_flags_new_photos() {
    let r = ScanPhotosResult::new(3, 1, 2);
    assert!(r.new_photos_found);
    assert_eq!((r.new_photos, r.updated_photos, r.deleted_photos), (3, 1, 2));
    assert!(!ScanPhotosResult::new(0, 4, 0).new_photos_found);
    let d = ScanPhotosResult::default();
    assert!(!d.new_photos_found);
    assert_eq!((d.new_photos, d.updated_photos, d.deleted_photos), (0, 0, 0));
}

#[test]
fn scan_folder_drops_quotes() {
    let r = ScanPhotosRequest { folder: Some("\"2020/ski\"".to_string()) };
    assert_eq!(r.get_folder(), "2020/ski");
    assert_eq!(ScanPhotosRequest { folder: None }.get_folder(), "");
}
