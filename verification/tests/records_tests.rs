use photo_catalog::coords::{GpsDms, Location, Rational};
use photo_catalog::records::{extract, parse_datetime, Error, ExifFields, PhotoDate};

fn whole(n: u32) -> Rational {
    Rational { num: n, den: 1 }
}

fn gps(deg: u32, min: u32, sec: u32, negative: bool) -> GpsDms {
    GpsDms { degrees: whole(deg), minutes: whole(min), seconds: whole(sec), negative }
}

fn no_fields() -> ExifFields {
    ExifFields { datetime: None, width: None, height: None, gps_lat: None, gps_lng: None }
}

#[test]
fn photo_date_new_keeps_parts() {
    let d = PhotoDate::new(2020, 3, 14, "2020:03:14 15:09:26");
    assert_eq!(d.year, 2020);
    assert_eq!(d.month, 3);
    assert_eq!(d.day, 14);
    assert_eq!(d.timestamp, "2020:03:14 15:09:26");
}

#[test]
fn well_formed_datetime_parses() {
    let d = parse_datetime("2020:01:02 03:04:05").unwrap();
    assert_eq!(d.year, 2020);
    assert_eq!(d.month, 1);
    assert_eq!(d.day, 2);
    assert_eq!(d.timestamp, "2020:01:02 03:04:05");
}

#[test]
fn datetime_keeps_trailing_text() {
    let d = parse_datetime("1999:12:31 23:59:59 extra").unwrap();
    assert_eq!(d.year, 1999);
    assert_eq!(d.month, 12);
    assert_eq!(d.day, 31);
    assert_eq!(d.timestamp, "1999:12:31 23:59:59 extra");
}

#[test]
fn malformed_datetimes_do_not_parse() {
    assert!(parse_datetime("").is_none());
    assert!(parse_datetime("2020:01:02").is_none());
    assert!(parse_datetime("2020-01-02 03:04:05").is_none());
    assert!(parse_datetime("2020:13:02 03:04:05").is_none());
    assert!(parse_datetime("2020:00:02 03:04:05").is_none());
    assert!(parse_datetime("2020:01:32 03:04:05").is_none());
    assert!(parse_datetime("2020:01:00 03:04:05").is_none());
    assert!(parse_datetime("y2k0:01:02 03:04:05").is_none());
}

#[test]
fn extract_defaults_missing_dimensions_to_zero() {
    let p = extract("a.jpg".to_string(), &no_fields()).unwrap();
    assert_eq!(p.path, "a.jpg");
    assert_eq!(p.width, 0);
    assert_eq!(p.height, 0);
    assert!(p.date.is_none());
    assert!(p.location.is_none());
}

#[test]
fn extract_takes_present_dimensions() {
    let mut f = no_fields();
    f.width = Some(4032);
    f.height = Some(3024);
    let p = extract("b.jpg".to_string(), &f).unwrap();
    assert_eq!(p.width, 4032);
    assert_eq!(p.height, 3024);
}

#[test]
fn extract_leaves_malformed_date_unset() {
    let mut f = no_fields();
    f.datetime = Some("not a date".to_string());
    let p = extract("c.jpg".to_string(), &f).unwrap();
    assert!(p.date.is_none());
}

#[test]
fn extract_parses_well_formed_date() {
    let mut f = no_fields();
    f.datetime = Some("2016:05:04 03:02:01".to_string());
    let p = extract("d.jpg".to_string(), &f).unwrap();
    let d = p.date.unwrap();
    assert_eq!(d.year, 2016);
    assert_eq!(d.month, 5);
    assert_eq!(d.day, 4);
}

#[test]
fn extract_converts_gps_pair() {
    let mut f = no_fields();
    f.gps_lat = Some(gps(10, 30, 0, false));
    f.gps_lng = Some(gps(20, 0, 0, true));
    let p = extract("e.jpg".to_string(), &f).unwrap();
    let loc = p.location.unwrap();
    assert_eq!(loc, Location { lat: 37_800_000, lng: -72_000_000 });
}

#[test]
fn extract_without_both_gps_tags_leaves_location_unset() {
    let mut f = no_fields();
    f.gps_lat = Some(gps(10, 0, 0, false));
    let p = extract("f.jpg".to_string(), &f).unwrap();
    assert!(p.location.is_none());
}

#[test]
fn extract_rejects_malformed_gps() {
    let mut f = no_fields();
    f.gps_lat = Some(GpsDms {
        degrees: Rational { num: 10, den: 0 },
        minutes: whole(0),
        seconds: whole(0),
        negative: false,
    });
    f.gps_lng = Some(gps(20, 0, 0, false));
    let r = extract("g.jpg".to_string(), &f);
    assert!(matches!(r, Err(Error::ParsePhotoError(_))));
}

#[test]
fn extract_rejects_out_of_range_gps() {
    let mut f = no_fields();
    f.gps_lat = Some(gps(0, 0, 0, false));
    f.gps_lng = Some(gps(200, 0, 0, false));
    let r = extract("h.jpg".to_string(), &f);
    assert!(matches!(r, Err(Error::ParsePhotoError(_))));
}
