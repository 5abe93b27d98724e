//! Places out of a database that is put together here.

use ttl::addr::{IpAddr, Ipv4Addr, Ipv6Addr};
use ttl::lookup::geo::{GeoLookup, CACHE_TTL_NANOS};

fn text(s: &str) -> Vec<u8> {
    let mut out = vec![(2u8 << 5) | s.len() as u8];
    out.extend_from_slice(s.as_bytes());
    out
}

fn small(value: u16) -> Vec<u8> {
    let mut out = vec![(5u8 << 5) | 2];
    out.extend_from_slice(&value.to_be_bytes());
    out
}

fn medium(value: u32) -> Vec<u8> {
    let mut out = vec![(6u8 << 5) | 4];
    out.extend_from_slice(&value.to_be_bytes());
    out
}

fn large(value: u64) -> Vec<u8> {
    let mut out = vec![8, 2];
    out.extend_from_slice(&value.to_be_bytes());
    out
}

fn number(value: f64) -> Vec<u8> {
    let mut out = vec![(3u8 << 5) | 8];
    out.extend_from_slice(&value.to_be_bytes());
    out
}

fn list(items: &[Vec<u8>]) -> Vec<u8> {
    let mut out = vec![items.len() as u8, 4];
    for item in items {
        out.extend_from_slice(item);
    }
    out
}

fn map(pairs: &[(&str, Vec<u8>)]) -> Vec<u8> {
    let mut out = vec![(7u8 << 5) | pairs.len() as u8];
    for (key, value) in pairs {
        out.extend_from_slice(&text(key));
        out.extend_from_slice(value);
    }
    out
}

/// A database with one record, for the addresses whose first bit is 0.
fn database(record: Vec<u8>) -> Vec<u8> {
    // One node: the left record points to the data, the right one nowhere.
    let mut out = vec![0, 0, 17, 0, 0, 1];
    out.extend_from_slice(&[0; 16]);
    out.extend_from_slice(&record);
    out.extend_from_slice(b"\xab\xcd\xefMaxMind.com");
    out.extend_from_slice(&map(&[
        ("binary_format_major_version", small(2)),
        ("binary_format_minor_version", small(0)),
        ("build_epoch", large(1_700_000_000)),
        ("database_type", text("City")),
        ("description", map(&[])),
        ("ip_version", small(4)),
        ("languages", list(&[])),
        ("node_count", medium(1)),
        ("record_size", small(24)),
    ]));
    out
}

fn berlin() -> Vec<u8> {
    map(&[
        ("city", map(&[("names", map(&[("en", text("Berlin"))]))])),
        ("country", map(&[("iso_code", text("DE"))])),
        (
            "location",
            map(&[("latitude", number(52.5)), ("longitude", number(13.25))]),
        ),
        (
            "subdivisions",
            list(&[
                map(&[("names", map(&[("en", text("Land Berlin"))]))]),
                map(&[("names", map(&[("en", text("Mitte"))]))]),
            ]),
        ),
    ])
}

#[test]
fn a_record_gives_a_place() {
    let geo = GeoLookup::new(database(berlin())).unwrap();
    let place = geo
        .do_lookup(IpAddr::V4(Ipv4Addr::new(10, 0, 0, 1)))
        .unwrap();
    assert_eq!(place.country, "DE");
    assert_eq!(place.city, Some("Berlin".to_string()));
    assert_eq!(place.region, Some("Land Berlin".to_string()));
    assert_eq!(place.latitude.map(f64::from_bits), Some(52.5));
    assert_eq!(place.longitude.map(f64::from_bits), Some(13.25));
}

#[test]
fn addresses_without_a_record() {
    let geo = GeoLookup::new(database(berlin())).unwrap();
    assert!(geo
        .do_lookup(IpAddr::V4(Ipv4Addr::new(200, 0, 0, 1)))
        .is_none());
    // The database knows IPv4 only.
    assert!(geo
        .do_lookup(IpAddr::V6(Ipv6Addr::new(0x2001, 0, 0, 0, 0, 0, 0, 1)))
        .is_none());
}

#[test]
fn a_record_without_a_country_gives_none() {
    let nameless = map(&[("city", map(&[("names", map(&[("en", text("Atlantis"))]))]))]);
    let geo = GeoLookup::new(database(nameless)).unwrap();
    assert!(geo
        .do_lookup(IpAddr::V4(Ipv4Addr::new(10, 0, 0, 1)))
        .is_none());
}

#[test]
fn bytes_that_are_no_database() {
    let fault = match GeoLookup::new(vec![1, 2, 3]) {
        Ok(_) => panic!("these bytes are no database"),
        Err(text) => text,
    };
    assert!(!fault.is_empty());
}

#[test]
fn places_are_cached_for_an_hour() {
    let mut geo = GeoLookup::new(database(berlin())).unwrap();
    let ip = IpAddr::V4(Ipv4Addr::new(10, 0, 0, 1));
    assert_eq!(geo.lookup(ip, 5).unwrap().country, "DE");
    assert_eq!(geo.cache.len(), 1);
    assert_eq!(geo.cache[0].cached_at, 5);
    // A fresh result is used again.
    assert_eq!(geo.lookup(ip, 4 + CACHE_TTL_NANOS).unwrap().country, "DE");
    assert_eq!(geo.cache[0].cached_at, 5);
    // An old one is replaced.
    assert_eq!(geo.lookup(ip, 5 + CACHE_TTL_NANOS).unwrap().country, "DE");
    assert_eq!(geo.cache[0].cached_at, 5 + CACHE_TTL_NANOS);
}
