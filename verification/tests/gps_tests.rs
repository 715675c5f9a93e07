use imgstore::gps::{Coordinate, dms_to_coordinate, extract_gps_numeric};

fn as_f64(c: &Coordinate) -> f64 {
    let v = c.numerator as f64 / c.denominator as f64;
    if c.negative { -v } else { v }
}

#[test]
fn dms_conversion_matches_reference_value() {
    // 40 deg 26' 46" N -> +40.446111...
    let c = dms_to_coordinate((40, 1), (26, 1), (46, 1), false).expect("denominators non-zero");
    assert!(!c.negative);
    assert!((as_f64(&c) - 40.446111).abs() < 1e-5);
}

#[test]
fn dms_conversion_applies_hemisphere_sign() {
    let c = dms_to_coordinate((40, 1), (26, 1), (46, 1), true).expect("denominators non-zero");
    assert!(c.negative);
    assert!((as_f64(&c) + 40.446111).abs() < 1e-5);
}

#[test]
fn dms_conversion_handles_fractional_rationals() {
    // 7 deg 30' 0": expressed with non-unit denominators.
    let c = dms_to_coordinate((14, 2), (60, 2), (0, 5), false).expect("denominators non-zero");
    assert!((as_f64(&c) - 7.5).abs() < 1e-9);
}

#[test]
fn dms_conversion_rejects_zero_denominators() {
    assert!(dms_to_coordinate((40, 0), (26, 1), (46, 1), false).is_none());
    assert!(dms_to_coordinate((40, 1), (26, 0), (46, 1), false).is_none());
    assert!(dms_to_coordinate((40, 1), (26, 1), (46, 0), false).is_none());
}

#[test]
fn dms_conversion_survives_extreme_values() {
    let c = dms_to_coordinate(
        (u32::MAX, u32::MAX),
        (u32::MAX, u32::MAX),
        (u32::MAX, u32::MAX),
        false,
    )
    .expect("denominators non-zero");
    // 1 + 1/60 + 1/3600
    assert!((as_f64(&c) - (1.0 + 1.0 / 60.0 + 1.0 / 3600.0)).abs() < 1e-9);
}

#[test]
fn no_metadata_yields_none_none() {
    assert_eq!(extract_gps_numeric(b""), (None, None));
    assert_eq!(extract_gps_numeric(b"not an image at all"), (None, None));
}

#[test]
fn image_without_gps_tags_yields_none_none() {
    // A minimal TIFF with one primary-IFD entry and no GPS IFD.
    let mut tiff = Vec::new();
    tiff.extend_from_slice(b"II\x2a\x00");
    tiff.extend_from_slice(&8u32.to_le_bytes());
    tiff.extend_from_slice(&1u16.to_le_bytes());
    // ImageWidth (0x0100), SHORT, count 1, value 1.
    tiff.extend_from_slice(&0x0100u16.to_le_bytes());
    tiff.extend_from_slice(&3u16.to_le_bytes());
    tiff.extend_from_slice(&1u32.to_le_bytes());
    tiff.extend_from_slice(&1u32.to_le_bytes());
    tiff.extend_from_slice(&0u32.to_le_bytes());
    assert_eq!(extract_gps_numeric(&tiff), (None, None));
}

/// A minimal little-endian TIFF whose GPS IFD carries 40 deg 26' 46" N and
/// 7 deg 39' 26" W.
fn tiff_with_gps() -> Vec<u8> {
    let mut t = Vec::new();
    // Header: byte order, magic, offset of the primary IFD.
    t.extend_from_slice(b"II\x2a\x00");
    t.extend_from_slice(&8u32.to_le_bytes());
    // Primary IFD at 8: one entry, the GPS sub-IFD pointer (0x8825).
    t.extend_from_slice(&1u16.to_le_bytes());
    t.extend_from_slice(&0x8825u16.to_le_bytes());
    t.extend_from_slice(&4u16.to_le_bytes()); // LONG
    t.extend_from_slice(&1u32.to_le_bytes());
    t.extend_from_slice(&26u32.to_le_bytes()); // GPS IFD offset
    t.extend_from_slice(&0u32.to_le_bytes()); // no next IFD
    // GPS IFD at 26: four entries.
    assert_eq!(t.len(), 26);
    t.extend_from_slice(&4u16.to_le_bytes());
    // GPSLatitudeRef (0x1), ASCII, "N\0", inline.
    t.extend_from_slice(&0x0001u16.to_le_bytes());
    t.extend_from_slice(&2u16.to_le_bytes());
    t.extend_from_slice(&2u32.to_le_bytes());
    t.extend_from_slice(b"N\x00\x00\x00");
    // GPSLatitude (0x2), RATIONAL, three values at offset 80.
    t.extend_from_slice(&0x0002u16.to_le_bytes());
    t.extend_from_slice(&5u16.to_le_bytes());
    t.extend_from_slice(&3u32.to_le_bytes());
    t.extend_from_slice(&80u32.to_le_bytes());
    // GPSLongitudeRef (0x3), ASCII, "W\0", inline.
    t.extend_from_slice(&0x0003u16.to_le_bytes());
    t.extend_from_slice(&2u16.to_le_bytes());
    t.extend_from_slice(&2u32.to_le_bytes());
    t.extend_from_slice(b"W\x00\x00\x00");
    // GPSLongitude (0x4), RATIONAL, three values at offset 104.
    t.extend_from_slice(&0x0004u16.to_le_bytes());
    t.extend_from_slice(&5u16.to_le_bytes());
    t.extend_from_slice(&3u32.to_le_bytes());
    t.extend_from_slice(&104u32.to_le_bytes());
    t.extend_from_slice(&0u32.to_le_bytes()); // no next IFD
    // Latitude rationals at 80: 40/1, 26/1, 46/1.
    assert_eq!(t.len(), 80);
    for (num, denom) in [(40u32, 1u32), (26, 1), (46, 1)] {
        t.extend_from_slice(&num.to_le_bytes());
        t.extend_from_slice(&denom.to_le_bytes());
    }
    // Longitude rationals at 104: 7/1, 39/1, 26/1.
    assert_eq!(t.len(), 104);
    for (num, denom) in [(7u32, 1u32), (39, 1), (26, 1)] {
        t.extend_from_slice(&num.to_le_bytes());
        t.extend_from_slice(&denom.to_le_bytes());
    }
    t
}

#[test]
fn missing_hemisphere_reference_leaves_the_axis_empty() {
    // A TIFF whose GPS IFD carries the latitude and longitude rationals but
    // no hemisphere reference tags: the reference is a required field, so
    // both axes stay empty.
    let mut t = Vec::new();
    t.extend_from_slice(b"II\x2a\x00");
    t.extend_from_slice(&8u32.to_le_bytes());
    t.extend_from_slice(&1u16.to_le_bytes());
    t.extend_from_slice(&0x8825u16.to_le_bytes());
    t.extend_from_slice(&4u16.to_le_bytes());
    t.extend_from_slice(&1u32.to_le_bytes());
    t.extend_from_slice(&26u32.to_le_bytes());
    t.extend_from_slice(&0u32.to_le_bytes());
    assert_eq!(t.len(), 26);
    t.extend_from_slice(&2u16.to_le_bytes());
    // GPSLatitude (0x2), RATIONAL, three values at offset 56.
    t.extend_from_slice(&0x0002u16.to_le_bytes());
    t.extend_from_slice(&5u16.to_le_bytes());
    t.extend_from_slice(&3u32.to_le_bytes());
    t.extend_from_slice(&56u32.to_le_bytes());
    // GPSLongitude (0x4), RATIONAL, three values at offset 80.
    t.extend_from_slice(&0x0004u16.to_le_bytes());
    t.extend_from_slice(&5u16.to_le_bytes());
    t.extend_from_slice(&3u32.to_le_bytes());
    t.extend_from_slice(&80u32.to_le_bytes());
    t.extend_from_slice(&0u32.to_le_bytes());
    assert_eq!(t.len(), 56);
    for (num, denom) in [(40u32, 1u32), (26, 1), (46, 1), (7, 1), (39, 1), (26, 1)] {
        t.extend_from_slice(&num.to_le_bytes());
        t.extend_from_slice(&denom.to_le_bytes());
    }
    assert_eq!(extract_gps_numeric(&t), (None, None));
}

#[test]
fn gps_extraction_round_trip_from_crafted_image() {
    let tiff = tiff_with_gps();
    let (lat, lon) = extract_gps_numeric(&tiff);
    let lat = lat.expect("latitude present");
    let lon = lon.expect("longitude present");
    assert!((as_f64(&lat) - 40.446111).abs() < 1e-5);
    assert!((as_f64(&lon) + 7.657222).abs() < 1e-5);
}
