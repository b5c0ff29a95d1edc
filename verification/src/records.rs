//! Photo records and the metadata extractor.
//!
//! The extractor takes the plain values decoded from a photo's EXIF block
//! (the binary decoding itself is an external collaborator) and produces a
//! partial record: path, capture date, pixel dimensions and an optional
//! GPS position. Policy is permissive: a missing or malformed date leaves
//! the date unset, missing dimensions default to zero, and only GPS data
//! that is present but malformed fails the record.

use vstd::prelude::*;

use crate::coords::{spec_dms_to_fixed, dms_to_fixed, GpsDms, Location};

verus! {

/// A capture date: the original timestamp string as extracted, and the
/// calendar fields parsed out of it.
#[derive(Debug, Clone)]
pub struct PhotoDate {
    pub timestamp: String,
    pub year: u16,
    pub month: u8,
    pub day: u8,
}

impl PhotoDate {
    /// Builds a date from its parts, keeping the original timestamp text.
    pub fn new(year: u16, month: u8, day: u8, time_str: &str) -> (r: PhotoDate)
        ensures
            r.year == year,
            r.month == month,
            r.day == day,
            r.timestamp@ == time_str@,
    {
        PhotoDate { timestamp: time_str.to_owned(), year, month, day }
    }
}

/// A named position: a reference-list entry, or the resolved country of a
/// photo together with the photo's own position.
#[derive(Debug, Clone)]
pub struct Country {
    pub name: String,
    pub location: Location,
}

/// A record before country resolution.
#[derive(Debug, Clone)]
pub struct PhotoPartial {
    pub path: String,
    pub date: Option<PhotoDate>,
    pub width: u32,
    pub height: u32,
    pub location: Option<Location>,
}

impl PhotoPartial {
    /// Any position the record carries is within coordinate range.
    pub open spec fn wf(self) -> bool {
        self.location matches Some(l) ==> l.wf()
    }
}

/// A finished record: a located photo whose position has been resolved to
/// the nearest reference country.
#[derive(Debug, Clone)]
pub struct Photo {
    pub path: String,
    pub date: Option<PhotoDate>,
    pub width: u32,
    pub height: u32,
    pub country: Country,
}

/// What can go wrong while building the catalog. I/O and container-format
/// failures are the surrounding shell's to report; they map to
/// `OtherError`.
#[derive(Debug, Clone)]
pub enum Error {
    ParsePhotoError(String),
    ConfigurationError(String),
    OtherError(String),
}

/// The plain values decoded from one photo's EXIF block. A field whose tag
/// is absent is `None`.
#[derive(Debug, Clone)]
pub struct ExifFields {
    pub datetime: Option<String>,
    pub width: Option<u32>,
    pub height: Option<u32>,
    pub gps_lat: Option<GpsDms>,
    pub gps_lng: Option<GpsDms>,
}

/// The character is a decimal digit.
pub open spec fn is_digit(c: char) -> bool {
    48 <= c as int <= 57
}

/// The numeric value of a decimal digit character.
pub open spec fn digit_val(c: char) -> int {
    c as int - 48
}

/// The string is a well-formed EXIF date-time: `"YYYY:MM:DD HH:MM:SS"`,
/// with the month between 1 and 12 and the day between 1 and 31. Text
/// after the nineteenth character is ignored.
pub open spec fn spec_datetime_ok(s: Seq<char>) -> bool {
    &&& s.len() >= 19
    &&& is_digit(s[0]) && is_digit(s[1]) && is_digit(s[2]) && is_digit(s[3])
    &&& s[4] == ':'
    &&& is_digit(s[5]) && is_digit(s[6])
    &&& s[7] == ':'
    &&& is_digit(s[8]) && is_digit(s[9])
    &&& s[10] == ' '
    &&& is_digit(s[11]) && is_digit(s[12])
    &&& s[13] == ':'
    &&& is_digit(s[14]) && is_digit(s[15])
    &&& s[16] == ':'
    &&& is_digit(s[17]) && is_digit(s[18])
    &&& 1 <= spec_month(s) <= 12
    &&& 1 <= spec_day(s) <= 31
}

/// The year encoded in a well-formed date-time string.
pub open spec fn spec_year(s: Seq<char>) -> int {
    digit_val(s[0]) * 1000 + digit_val(s[1]) * 100 + digit_val(s[2]) * 10 + digit_val(s[3])
}

/// The month encoded in a well-formed date-time string.
pub open spec fn spec_month(s: Seq<char>) -> int {
    digit_val(s[5]) * 10 + digit_val(s[6])
}

/// The day encoded in a well-formed date-time string.
pub open spec fn spec_day(s: Seq<char>) -> int {
    digit_val(s[8]) * 10 + digit_val(s[9])
}

/// Reads one character as a decimal digit.
fn digit_of(c: char) -> (r: Option<u8>)
    ensures
        match r {
            Some(v) => is_digit(c) && v == digit_val(c) && v <= 9,
            None => !is_digit(c),
        },
{
    let code: u32 = c as u32;
    if 48 <= code && code <= 57 {
        Some((code - 48) as u8)
    } else {
        None
    }
}

/// Parses an EXIF date-time string, `"YYYY:MM:DD HH:MM:SS"`. Returns
/// `None` when the string is not well-formed; otherwise the parsed
/// calendar fields together with the whole original string.
pub fn parse_datetime(s: &str) -> (r: Option<PhotoDate>)
    ensures
        r is Some <==> spec_datetime_ok(s@),
        match r {
            Some(d) => {
                &&& d.year == spec_year(s@)
                &&& d.month == spec_month(s@)
                &&& d.day == spec_day(s@)
                &&& d.timestamp@ == s@
            },
            None => true,
        },
{
    let n: usize = s.unicode_len();
    if n < 19 {
        return None;
    }
    if !(s.get_char(4) == ':' && s.get_char(7) == ':' && s.get_char(10) == ' ' && s.get_char(13)
        == ':' && s.get_char(16) == ':') {
        return None;
    }
    let y0 = digit_of(s.get_char(0));
    let y1 = digit_of(s.get_char(1));
    let y2 = digit_of(s.get_char(2));
    let y3 = digit_of(s.get_char(3));
    let mo0 = digit_of(s.get_char(5));
    let mo1 = digit_of(s.get_char(6));
    let d0 = digit_of(s.get_char(8));
    let d1 = digit_of(s.get_char(9));
    let h0 = digit_of(s.get_char(11));
    let h1 = digit_of(s.get_char(12));
    let mi0 = digit_of(s.get_char(14));
    let mi1 = digit_of(s.get_char(15));
    let s0 = digit_of(s.get_char(17));
    let s1 = digit_of(s.get_char(18));
    match (y0, y1, y2, y3, mo0, mo1, d0, d1, h0, h1, mi0, mi1, s0, s1) {
        (
            Some(y0),
            Some(y1),
            Some(y2),
            Some(y3),
            Some(mo0),
            Some(mo1),
            Some(d0),
            Some(d1),
            Some(_),
            Some(_),
            Some(_),
            Some(_),
            Some(_),
            Some(_),
        ) => {
            let year: u16 = y0 as u16 * 1000 + y1 as u16 * 100 + y2 as u16 * 10 + y3 as u16;
            let month: u8 = mo0 * 10 + mo1;
            let day: u8 = d0 * 10 + d1;
            if 1 <= month && month <= 12 && 1 <= day && day <= 31 {
                Some(PhotoDate::new(year, month, day, s))
            } else {
                None
            }
        },
        _ => None,
    }
}

/// Whether present GPS data converts to a position; malformed GPS data is
/// an extraction error. When either tag is absent the position is unset,
/// which is not an error.
pub open spec fn spec_gps_outcome(fields: ExifFields) -> Option<Option<Location>> {
    match (fields.gps_lat, fields.gps_lng) {
        (Some(lat_dms), Some(lng_dms)) => match (
            spec_dms_to_fixed(lat_dms),
            spec_dms_to_fixed(lng_dms),
        ) {
            (Some(lat), Some(lng)) => Some(Some(Location { lat: lat as i64, lng: lng as i64 })),
            _ => None,
        },
        _ => Some(None),
    }
}

/// Builds a partial record from one photo's decoded EXIF fields.
///
/// Policy: a missing or malformed date-time leaves the date unset;
/// missing pixel dimensions default to zero; a missing GPS tag leaves the
/// position unset; GPS data that is present but malformed (a zero
/// denominator or a magnitude beyond 180 degrees) fails the record, and
/// is the only failure.
pub fn extract(path: String, fields: &ExifFields) -> (r: Result<PhotoPartial, Error>)
    ensures
        r is Err <==> spec_gps_outcome(*fields) is None,
        match r {
            Ok(p) => {
                &&& p.path == path
                &&& match fields.datetime {
                    Some(ts) => if spec_datetime_ok(ts@) {
                        &&& p.date matches Some(d)
                        &&& d.year == spec_year(ts@)
                        &&& d.month == spec_month(ts@)
                        &&& d.day == spec_day(ts@)
                        &&& d.timestamp@ == ts@
                    } else {
                        p.date is None
                    },
                    None => p.date is None,
                }
                &&& p.width == fields.width.unwrap_or(0)
                &&& p.height == fields.height.unwrap_or(0)
                &&& spec_gps_outcome(*fields) == Some(p.location)
                &&& p.wf()
            },
            Err(e) => e matches Error::ParsePhotoError(m) && m@ == "Gps"@,
        },
{
    let date: Option<PhotoDate> = match &fields.datetime {
        Some(ts) => parse_datetime(ts.as_str()),
        None => None,
    };
    let width: u32 = match fields.width {
        Some(w) => w,
        None => 0,
    };
    let height: u32 = match fields.height {
        Some(h) => h,
        None => 0,
    };
    let location: Option<Location> = match (&fields.gps_lat, &fields.gps_lng) {
        (Some(lat_dms), Some(lng_dms)) => {
            match (dms_to_fixed(lat_dms), dms_to_fixed(lng_dms)) {
                (Some(lat), Some(lng)) => Some(Location { lat, lng }),
                _ => { return Err(Error::ParsePhotoError("Gps".to_owned())) },
            }
        },
        _ => None,
    };
    Ok(PhotoPartial { path, date, width, height, location })
}

} // verus!
