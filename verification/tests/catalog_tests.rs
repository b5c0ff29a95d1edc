use photo_catalog::catalog::{build, make_key, u16_to_string};
use photo_catalog::coords::Location;
use photo_catalog::records::{Country, Photo, PhotoDate};

fn photo(path: &str, country_name: &str, year: u16) -> Photo {
    Photo {
        path: path.to_string(),
        date: Some(PhotoDate::new(year, 1, 1, "")),
        width: 100,
        height: 100,
        country: Country {
            name: country_name.to_string(),
            location: Location { lat: 0, lng: 0 },
        },
    }
}

fn undated_photo(path: &str, country_name: &str) -> Photo {
    Photo {
        path: path.to_string(),
        date: None,
        width: 100,
        height: 100,
        country: Country {
            name: country_name.to_string(),
            location: Location { lat: 0, lng: 0 },
        },
    }
}

#[test]
fn year_formats_as_decimal() {
    assert_eq!(u16_to_string(0), "0");
    assert_eq!(u16_to_string(7), "7");
    assert_eq!(u16_to_string(2020), "2020");
    assert_eq!(u16_to_string(65535), "65535");
}

#[test]
fn key_is_country_then_year() {
    assert_eq!(make_key("France", 2020), "France2020");
    assert_eq!(make_key("", 7), "7");
}

#[test]
fn two_records_same_country_and_year_form_one_group() {
    let records = vec![photo("one.jpg", "X", 2020), photo("two.jpg", "X", 2020)];
    let catalog = build(records);
    assert_eq!(catalog.groups.len(), 1);
    assert_eq!(catalog.groups[0].key, "X2020");
    assert_eq!(catalog.groups[0].photos.len(), 2);
    assert_eq!(catalog.groups[0].photos[0].path, "one.jpg");
    assert_eq!(catalog.groups[0].photos[1].path, "two.jpg");
}

#[test]
fn different_years_split_groups_in_first_use_order() {
    let records = vec![
        photo("a.jpg", "X", 2020),
        photo("b.jpg", "X", 2019),
        photo("c.jpg", "X", 2020),
    ];
    let catalog = build(records);
    assert_eq!(catalog.groups.len(), 2);
    assert_eq!(catalog.groups[0].key, "X2020");
    assert_eq!(catalog.groups[1].key, "X2019");
    assert_eq!(catalog.groups[0].photos.len(), 2);
    assert_eq!(catalog.groups[1].photos.len(), 1);
}

#[test]
fn undated_records_are_skipped() {
    let records = vec![undated_photo("a.jpg", "X"), photo("b.jpg", "X", 2020)];
    let catalog = build(records);
    assert_eq!(catalog.groups.len(), 1);
    assert_eq!(catalog.groups[0].photos.len(), 1);
    assert_eq!(catalog.groups[0].photos[0].path, "b.jpg");
}

#[test]
fn empty_batch_builds_empty_catalog() {
    let catalog = build(Vec::new());
    assert_eq!(catalog.groups.len(), 0);
}

#[test]
fn colliding_country_year_pairs_share_a_group() {
    // "France1" + 23 and "France" + 123 concatenate to the same key — a
    // known limitation of the key format, kept as it is.
    let records = vec![photo("a.jpg", "France1", 23), photo("b.jpg", "France", 123)];
    let catalog = build(records);
    assert_eq!(catalog.groups.len(), 1);
    assert_eq!(catalog.groups[0].key, "France123");
    assert_eq!(catalog.groups[0].photos.len(), 2);
}
