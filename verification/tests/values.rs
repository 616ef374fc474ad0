//! Value-level behaviour: numeric and coordinate parsing, path
//! classification, and error descriptions.

use osm_stream::coord::parse_coord;
use osm_stream::input::{classify_path, InputFormat};
use osm_stream::model::OsmError;
use osm_stream::numeric::{parse_bool, parse_i64, parse_u32, parse_u64};

#[test]
fn i64_plain() {
    assert_eq!(parse_i64(b"0"), Some(0));
    assert_eq!(parse_i64(b"42"), Some(42));
    assert_eq!(parse_i64(b"+42"), Some(42));
    assert_eq!(parse_i64(b"-42"), Some(-42));
}

#[test]
fn i64_bounds() {
    assert_eq!(parse_i64(b"9223372036854775807"), Some(i64::MAX));
    assert_eq!(parse_i64(b"-9223372036854775808"), Some(i64::MIN));
    assert_eq!(parse_i64(b"9223372036854775808"), None);
    assert_eq!(parse_i64(b"-9223372036854775809"), None);
}

#[test]
fn i64_malformed() {
    assert_eq!(parse_i64(b""), None);
    assert_eq!(parse_i64(b"-"), None);
    assert_eq!(parse_i64(b"+"), None);
    assert_eq!(parse_i64(b"1x"), None);
    assert_eq!(parse_i64(b" 1"), None);
    assert_eq!(parse_i64(b"--1"), None);
}

#[test]
fn u64_and_u32() {
    assert_eq!(parse_u64(b"18446744073709551615"), Some(u64::MAX));
    assert_eq!(parse_u64(b"18446744073709551616"), None);
    assert_eq!(parse_u64(b"-1"), None);
    assert_eq!(parse_u32(b"4294967295"), Some(u32::MAX));
    assert_eq!(parse_u32(b"4294967296"), None);
    assert_eq!(parse_u32(b"+7"), Some(7));
}

#[test]
fn bool_values() {
    assert_eq!(parse_bool(b"true"), Some(true));
    assert_eq!(parse_bool(b"false"), Some(false));
    assert_eq!(parse_bool(b"TRUE"), None);
    assert_eq!(parse_bool(b"1"), None);
    assert_eq!(parse_bool(b""), None);
}

#[test]
fn coord_whole_and_fraction() {
    assert_eq!(parse_coord(b"1.0"), Some(10_000_000));
    assert_eq!(parse_coord(b"2.0"), Some(20_000_000));
    assert_eq!(parse_coord(b"0"), Some(0));
    assert_eq!(parse_coord(b"52.5170365"), Some(525_170_365));
    assert_eq!(parse_coord(b"-12.3456789"), Some(-123_456_789));
    assert_eq!(parse_coord(b"+2.5"), Some(25_000_000));
}

#[test]
fn coord_truncates_past_seven_digits() {
    assert_eq!(parse_coord(b"0.123456789"), Some(1_234_567));
    assert_eq!(parse_coord(b"-0.999999999"), Some(-9_999_999));
}

#[test]
fn coord_malformed() {
    assert_eq!(parse_coord(b""), None);
    assert_eq!(parse_coord(b"1."), None);
    assert_eq!(parse_coord(b".5"), None);
    assert_eq!(parse_coord(b"1e5"), None);
    assert_eq!(parse_coord(b"1.2.3"), None);
    assert_eq!(parse_coord(b"abc"), None);
    assert_eq!(parse_coord(b"-"), None);
}

#[test]
fn path_suffixes() {
    assert_eq!(classify_path(b"extract.osm"), Ok(InputFormat::Plain));
    assert_eq!(classify_path(b"extract.osm.gz"), Ok(InputFormat::Gzip));
    assert_eq!(classify_path(b"extract.osm.bz2"), Ok(InputFormat::Bzip2));
    assert_eq!(classify_path(b"extract.pbf"), Err(OsmError::NotOsmFile));
    assert_eq!(classify_path(b"extract.xml"), Err(OsmError::NotOsmFile));
    assert_eq!(classify_path(b"osm"), Err(OsmError::NotOsmFile));
}

#[test]
fn error_messages() {
    assert_eq!(OsmError::NoLongitude.message(), "node has no longitude");
    assert_eq!(OsmError::NoLatitude.message(), "node has no latitude");
    assert_eq!(OsmError::NotOsmFile.message(), "file is not .osm format");
}

#[test]
fn coord_scaled_bounds() {
    // the largest coordinate magnitude the fixed-point form can hold
    assert_eq!(parse_coord(b"922337203685.4775807"), Some(i64::MAX));
    assert_eq!(parse_coord(b"-922337203685.4775807"), Some(-i64::MAX));
    assert_eq!(parse_coord(b"922337203685.4775808"), None);
    assert_eq!(parse_coord(b"922337203686"), None);
}
