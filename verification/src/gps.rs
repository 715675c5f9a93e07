//! Embedded GPS metadata extraction.
//!
//! An image may carry its position in embedded metadata: per axis three
//! unsigned rationals (degrees, minutes, seconds) plus a hemisphere
//! reference letter.  Both are required fields of an axis.  Extraction is
//! best-effort — a malformed container, a missing coordinate or hemisphere
//! tag, or a zero denominator leaves the axis empty, never fails the
//! caller.
//!
//! Locating the fields inside the container is an outside call; what it
//! yields is named by the two uninterpreted functions below.  The conversion
//! to a signed decimal degree value is done here, exactly, in rational
//! arithmetic: `degrees + minutes/60 + seconds/3600`, negated when the
//! hemisphere reference is South or West.

use vstd::prelude::*;

verus! {

/// The degrees/minutes/seconds rationals of one GPS axis of an image, as
/// `(numerator, denominator)` pairs, if the container parses and carries a
/// rational-valued field for that axis.  `latitude` selects the axis.  A
/// pure function of the bytes.
pub uninterp spec fn gps_rationals_of(body: Seq<u8>, latitude: bool) -> Option<Seq<(u32, u32)>>;

/// The first character of the displayed hemisphere reference of one GPS
/// axis, if present.  A pure function of the bytes.
pub uninterp spec fn gps_ref_of(body: Seq<u8>, latitude: bool) -> Option<char>;

/// Relies on `exif::Reader::read_from_container` and `Exif::get_field`: the
/// parsed field set is a pure function of the input bytes; the selected
/// axis field, when rational-valued, is handed back pair by pair.
#[verifier::external_body]
fn read_gps_rationals(body: &[u8], latitude: bool) -> (r: Option<Vec<(u32, u32)>>)
    ensures
        r matches Some(v) ==> gps_rationals_of(body@, latitude) == Some(v@),
        r is None ==> gps_rationals_of(body@, latitude) is None,
{
    let mut cursor = std::io::Cursor::new(body);
    let exif = exif::Reader::new().read_from_container(&mut cursor).ok()?;
    let tag = if latitude { exif::Tag::GPSLatitude } else { exif::Tag::GPSLongitude };
    let field = exif.get_field(tag, exif::In::PRIMARY)?;
    if let exif::Value::Rational(ref vals) = field.value {
        Some(vals.iter().map(|v| (v.num, v.denom)).collect())
    } else {
        None
    }
}

/// Relies on `exif::Reader::read_from_container`, `Exif::get_field` and
/// `Value::display_as`: the displayed hemisphere reference is a pure
/// function of the input bytes; its first character is handed back.
#[verifier::external_body]
fn read_gps_ref(body: &[u8], latitude: bool) -> (r: Option<char>)
    ensures
        r matches Some(c) ==> gps_ref_of(body@, latitude) == Some(c),
        r is None ==> gps_ref_of(body@, latitude) is None,
{
    let mut cursor = std::io::Cursor::new(body);
    let exif = exif::Reader::new().read_from_container(&mut cursor).ok()?;
    let tag = if latitude { exif::Tag::GPSLatitudeRef } else { exif::Tag::GPSLongitudeRef };
    let field = exif.get_field(tag, exif::In::PRIMARY)?;
    let shown = format!("{}", field.value.display_as(field.tag));
    shown.chars().next()
}

/// A signed decimal-degree coordinate held exactly, as a sign and a
/// non-negative rational.  The value it denotes is
/// `numerator / denominator`, negated when `negative` is set.
#[derive(Clone, Copy, Debug, PartialEq, Eq, Structural)]
pub struct Coordinate {
    pub negative: bool,
    pub numerator: u128,
    pub denominator: u128,
}

/// The numerator of `d + m/60 + s/3600` over the common denominator below.
pub open spec fn dms_numerator(d: (u32, u32), m: (u32, u32), s: (u32, u32)) -> int {
    d.0 * m.1 * s.1 * 3600 + m.0 * d.1 * s.1 * 60 + s.0 * d.1 * m.1
}

/// The common denominator of `d + m/60 + s/3600`.
pub open spec fn dms_denominator(d: (u32, u32), m: (u32, u32), s: (u32, u32)) -> int {
    d.1 * m.1 * s.1 * 3600
}

/// The coordinate denoted by three degree/minute/second rationals and a
/// sign, or nothing when a denominator is zero and the value is undefined.
pub open spec fn spec_dms_coordinate(
    d: (u32, u32),
    m: (u32, u32),
    s: (u32, u32),
    negative: bool,
) -> Option<Coordinate> {
    if d.1 == 0 || m.1 == 0 || s.1 == 0 {
        None
    } else {
        Some(
            Coordinate {
                negative,
                numerator: dms_numerator(d, m, s) as u128,
                denominator: dms_denominator(d, m, s) as u128,
            },
        )
    }
}

/// A product of three 32-bit values and a factor of at most 3600 stays far
/// below the 128-bit range.
proof fn lemma_dms_product_bound(a: int, b: int, c: int, k: int)
    requires
        0 <= a < 0x1_0000_0000,
        0 <= b < 0x1_0000_0000,
        0 <= c < 0x1_0000_0000,
        0 <= k <= 3600,
    ensures
        0 <= a * b && a * b < 0x1_0000_0000_0000_0000,
        0 <= a * b * c && a * b * c < 0x1_0000_0000_0000_0000_0000_0000,
        0 <= a * b * c * k && a * b * c * k < 0x1000_0000_0000_0000_0000_0000_0000,
{
    assert(0 <= a * b && a * b < 0x1_0000_0000_0000_0000 && 0 <= a * b * c && a * b * c
        < 0x1_0000_0000_0000_0000_0000_0000 && 0 <= a * b * c * k && a * b * c * k
        < 0x1000_0000_0000_0000_0000_0000_0000)
        by (nonlinear_arith)
        requires
            0 <= a < 0x1_0000_0000,
            0 <= b < 0x1_0000_0000,
            0 <= c < 0x1_0000_0000,
            0 <= k <= 3600,
    ;
}

/// Convert one axis' degree/minute/second rationals and sign into an exact
/// decimal-degree coordinate.
pub fn dms_to_coordinate(d: (u32, u32), m: (u32, u32), s: (u32, u32), negative: bool) -> (r:
    Option<Coordinate>)
    ensures
        r == spec_dms_coordinate(d, m, s, negative),
{
    if d.1 == 0 || m.1 == 0 || s.1 == 0 {
        return None;
    }
    let dn: u128 = d.0 as u128;
    let dd: u128 = d.1 as u128;
    let mn: u128 = m.0 as u128;
    let md: u128 = m.1 as u128;
    let sn: u128 = s.0 as u128;
    let sd: u128 = s.1 as u128;
    proof {
        lemma_dms_product_bound(dn as int, md as int, sd as int, 3600);
        lemma_dms_product_bound(mn as int, dd as int, sd as int, 60);
        lemma_dms_product_bound(sn as int, dd as int, md as int, 1);
        lemma_dms_product_bound(dd as int, md as int, sd as int, 3600);
    }
    let numerator: u128 = dn * md * sd * 3600 + mn * dd * sd * 60 + sn * dd * md;
    let denominator: u128 = dd * md * sd * 3600;
    Some(Coordinate { negative, numerator, denominator })
}

/// The hemisphere letter that makes an axis negative: South for latitude,
/// West for longitude.
pub open spec fn axis_negative_ref(latitude: bool) -> char {
    if latitude {
        'S'
    } else {
        'W'
    }
}

/// What extracting one GPS axis from image bytes yields: the exact
/// coordinate when the axis has at least three rationals with non-zero
/// denominators and a hemisphere reference, nothing otherwise — the
/// reference is a required field, so its absence leaves the axis empty.
pub open spec fn spec_gps_axis(body: Seq<u8>, latitude: bool) -> Option<Coordinate> {
    match gps_rationals_of(body, latitude) {
        Some(vals) => if vals.len() >= 3 {
            match gps_ref_of(body, latitude) {
                Some(reference) => spec_dms_coordinate(
                    vals[0],
                    vals[1],
                    vals[2],
                    reference == axis_negative_ref(latitude),
                ),
                None => None,
            }
        } else {
            None
        },
        None => None,
    }
}

/// Extract one GPS axis from image bytes, best-effort.
pub fn extract_gps_coordinate_numeric(body: &[u8], latitude: bool) -> (r: Option<Coordinate>)
    ensures
        r == spec_gps_axis(body@, latitude),
{
    let vals = match read_gps_rationals(body, latitude) {
        Some(v) => v,
        None => {
            return None;
        },
    };
    if vals.len() < 3 {
        return None;
    }
    let reference = match read_gps_ref(body, latitude) {
        Some(c) => c,
        None => {
            return None;
        },
    };
    let negative_ref = if latitude { 'S' } else { 'W' };
    dms_to_coordinate(vals[0], vals[1], vals[2], reference == negative_ref)
}

/// Extract the embedded GPS position of an image, best-effort: latitude
/// first, then longitude, each axis independently and never with an error.
pub fn extract_gps_numeric(body: &[u8]) -> (r: (Option<Coordinate>, Option<Coordinate>))
    ensures
        r.0 == spec_gps_axis(body@, true),
        r.1 == spec_gps_axis(body@, false),
{
    let latitude = extract_gps_coordinate_numeric(body, true);
    let longitude = extract_gps_coordinate_numeric(body, false);
    (latitude, longitude)
}

} // verus!
