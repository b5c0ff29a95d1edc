//! Fixed-point geographic coordinates.
//!
//! A coordinate is stored in units of one thousandth of an arcsecond
//! (1/3_600_000 of a degree), signed. The sexagesimal-to-decimal
//! conversion `degrees + minutes/60 + seconds/3600` is then exact integer
//! arithmetic: one degree is 3_600_000 units, one minute 60_000, one
//! second 1_000.

use vstd::prelude::*;

verus! {

/// Fixed-point units per degree.
pub const MILLI_ARCSEC_PER_DEGREE: i64 = 3600000;

/// Fixed-point units per minute of arc.
pub const MILLI_ARCSEC_PER_MINUTE: i64 = 60000;

/// Fixed-point units per second of arc.
pub const MILLI_ARCSEC_PER_SECOND: i64 = 1000;

/// Largest coordinate magnitude handled: 180 degrees.
pub const MAX_COORD: i64 = 648000000;

/// A position in decimal degrees, each component held as fixed-point
/// milli-arcseconds.
#[derive(Clone, Copy, Debug, PartialEq, Eq, Structural)]
pub struct Location {
    pub lat: i64,
    pub lng: i64,
}

impl Location {
    /// Both components are within the 180-degree range the conversion
    /// functions can produce; distances between such locations cannot
    /// overflow.
    pub open spec fn wf(self) -> bool {
        &&& -MAX_COORD <= self.lat <= MAX_COORD
        &&& -MAX_COORD <= self.lng <= MAX_COORD
    }
}

/// The decimal-degree value, in milli-arcseconds, of a sexagesimal
/// coordinate given as whole degrees, minutes and seconds, negated for the
/// southern or western hemisphere.
pub open spec fn spec_to_decimal_degrees(
    degrees: int,
    minutes: int,
    seconds: int,
    negative: bool,
) -> int {
    let magnitude = degrees * MILLI_ARCSEC_PER_DEGREE + minutes * MILLI_ARCSEC_PER_MINUTE
        + seconds * MILLI_ARCSEC_PER_SECOND;
    if negative {
        -magnitude
    } else {
        magnitude
    }
}

/// Converts degrees, minutes and seconds to a signed decimal-degree value
/// in fixed-point milli-arcseconds: `degrees + minutes/60 + seconds/3600`
/// degrees, negated when `negative` marks the southern or western
/// hemisphere.
pub fn to_decimal_degrees(degrees: u32, minutes: u32, seconds: u32, negative: bool) -> (r: i64)
    ensures
        r == spec_to_decimal_degrees(degrees as int, minutes as int, seconds as int, negative),
{
    let magnitude: i64 = degrees as i64 * MILLI_ARCSEC_PER_DEGREE
        + minutes as i64 * MILLI_ARCSEC_PER_MINUTE + seconds as i64 * MILLI_ARCSEC_PER_SECOND;
    if negative {
        -magnitude
    } else {
        magnitude
    }
}

/// With the hemisphere held positive, the decimal-degree value grows with
/// each of its components, and strictly so as soon as one component grows
/// strictly.
pub proof fn lemma_to_decimal_degrees_monotonic(
    d1: int,
    m1: int,
    s1: int,
    d2: int,
    m2: int,
    s2: int,
)
    requires
        d1 <= d2,
        m1 <= m2,
        s1 <= s2,
    ensures
        spec_to_decimal_degrees(d1, m1, s1, false) <= spec_to_decimal_degrees(d2, m2, s2, false),
        d1 < d2 || m1 < m2 || s1 < s2 ==> spec_to_decimal_degrees(d1, m1, s1, false)
            < spec_to_decimal_degrees(d2, m2, s2, false),
{
}

/// An unsigned rational number, as EXIF stores each part of a sexagesimal
/// coordinate.
#[derive(Clone, Copy, Debug, PartialEq, Eq, Structural)]
pub struct Rational {
    pub num: u32,
    pub den: u32,
}

/// One GPS coordinate as extracted: degrees, minutes and seconds as
/// rationals, and whether the hemisphere reference (south or west) makes
/// the value negative.
#[derive(Clone, Copy, Debug, PartialEq, Eq, Structural)]
pub struct GpsDms {
    pub degrees: Rational,
    pub minutes: Rational,
    pub seconds: Rational,
    pub negative: bool,
}

/// One component of a sexagesimal coordinate, scaled to fixed point and
/// rounded down: `num / den` of a unit worth `factor` milli-arcseconds.
pub open spec fn spec_scaled(num: int, factor: int, den: int) -> int {
    (num * factor) / den
}

/// The fixed-point value of a full GPS coordinate, or `None` when a
/// denominator is zero or the magnitude exceeds 180 degrees.
pub open spec fn spec_dms_to_fixed(dms: GpsDms) -> Option<int> {
    if dms.degrees.den == 0 || dms.minutes.den == 0 || dms.seconds.den == 0 {
        None
    } else {
        let magnitude = spec_scaled(
            dms.degrees.num as int,
            MILLI_ARCSEC_PER_DEGREE as int,
            dms.degrees.den as int,
        ) + spec_scaled(
            dms.minutes.num as int,
            MILLI_ARCSEC_PER_MINUTE as int,
            dms.minutes.den as int,
        ) + spec_scaled(
            dms.seconds.num as int,
            MILLI_ARCSEC_PER_SECOND as int,
            dms.seconds.den as int,
        );
        if magnitude > MAX_COORD {
            None
        } else if dms.negative {
            Some(-magnitude)
        } else {
            Some(magnitude)
        }
    }
}

/// Converts a rational sexagesimal coordinate to fixed point, each
/// component rounded down to a whole number of milli-arcseconds. Returns
/// `None` for a malformed coordinate: a zero denominator, or a magnitude
/// beyond 180 degrees.
pub fn dms_to_fixed(dms: &GpsDms) -> (r: Option<i64>)
    ensures
        match r {
            Some(v) => spec_dms_to_fixed(*dms) == Some(v as int) && -MAX_COORD <= v <= MAX_COORD,
            None => spec_dms_to_fixed(*dms) is None,
        },
{
    if dms.degrees.den == 0 || dms.minutes.den == 0 || dms.seconds.den == 0 {
        return None;
    }
    proof {
        lemma_component_bound(dms.degrees.num as int, MILLI_ARCSEC_PER_DEGREE as int);
        lemma_component_bound(dms.minutes.num as int, MILLI_ARCSEC_PER_MINUTE as int);
        lemma_component_bound(dms.seconds.num as int, MILLI_ARCSEC_PER_SECOND as int);
    }
    let deg: u64 = dms.degrees.num as u64 * MILLI_ARCSEC_PER_DEGREE as u64
        / dms.degrees.den as u64;
    let min: u64 = dms.minutes.num as u64 * MILLI_ARCSEC_PER_MINUTE as u64
        / dms.minutes.den as u64;
    let sec: u64 = dms.seconds.num as u64 * MILLI_ARCSEC_PER_SECOND as u64
        / dms.seconds.den as u64;
    let magnitude: u64 = deg + min + sec;
    if magnitude > MAX_COORD as u64 {
        return None;
    }
    if dms.negative {
        Some(-(magnitude as i64))
    } else {
        Some(magnitude as i64)
    }
}

/// The squared Euclidean distance between two locations in
/// fixed-point-degree space. Deliberately not geodesic.
pub open spec fn spec_distance(a: Location, b: Location) -> int {
    (a.lat - b.lat) * (a.lat - b.lat) + (a.lng - b.lng) * (a.lng - b.lng)
}

/// Computes the squared Euclidean distance between two locations.
pub fn distance(a: &Location, b: &Location) -> (r: i64)
    requires
        a.wf(),
        b.wf(),
    ensures
        r == spec_distance(*a, *b),
{
    let dlat: i64 = a.lat - b.lat;
    let dlng: i64 = a.lng - b.lng;
    proof {
        lemma_square_bound(dlat as int);
        lemma_square_bound(dlng as int);
    }
    dlat * dlat + dlng * dlng
}

/// A numerator scaled by a per-unit factor stays well inside `u64`.
proof fn lemma_component_bound(num: int, factor: int)
    requires
        0 <= num <= u32::MAX,
        0 <= factor <= MILLI_ARCSEC_PER_DEGREE,
    ensures
        0 <= num * factor <= u32::MAX * MILLI_ARCSEC_PER_DEGREE,
{
    assert(0 <= num * factor <= u32::MAX * MILLI_ARCSEC_PER_DEGREE) by (nonlinear_arith)
        requires
            0 <= num <= u32::MAX,
            0 <= factor <= MILLI_ARCSEC_PER_DEGREE,
    ;
}

/// A difference of two in-range coordinates squares without overflow.
proof fn lemma_square_bound(d: int)
    requires
        -2 * MAX_COORD <= d <= 2 * MAX_COORD,
    ensures
        0 <= d * d <= 4 * MAX_COORD * MAX_COORD,
{
    assert(0 <= d * d <= 4 * MAX_COORD * MAX_COORD) by (nonlinear_arith)
        requires
            -2 * MAX_COORD <= d <= 2 * MAX_COORD,
    ;
}

} // verus!
