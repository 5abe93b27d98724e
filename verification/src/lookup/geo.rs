//! Places of addresses.

use crate::addr::IpAddr;
use crate::lookup::cache::{
    cached, distinct_ips, fresh, fresh_entries, pruned, remember, with_entry, CacheEntry,
};
use crate::text::{copy_of, copy_opt, opt_text};
use maxminddb::geoip2::City;
use maxminddb::Reader;
use vstd::prelude::*;

verus! {

/// Maximum lookups at a time.
pub const MAX_CONCURRENT_LOOKUPS: usize = 20;

/// How long results are used, in nanoseconds (one hour).
pub const CACHE_TTL_NANOS: u64 = 3_600_000_000_000;

/// Where an address is. `C` is a coordinate.
#[derive(Debug, Clone)]
pub struct GeoInfo<C> {
    pub city: Option<String>,
    pub region: Option<String>,
    /// ISO country code.
    pub country: String,
    pub latitude: Option<C>,
    pub longitude: Option<C>,
}

/// A place by its texts and coordinates.
pub struct GeoText<C> {
    pub city: Option<Seq<char>>,
    pub region: Option<Seq<char>>,
    pub country: Seq<char>,
    pub latitude: Option<C>,
    pub longitude: Option<C>,
}

impl<C> View for GeoInfo<C> {
    type V = GeoText<C>;

    open spec fn view(&self) -> GeoText<C> {
        GeoText {
            city: opt_text(self.city),
            region: opt_text(self.region),
            country: self.country@,
            latitude: self.latitude,
            longitude: self.longitude,
        }
    }
}

/// An optional place by its texts and coordinates.
pub open spec fn opt_geo<C>(geo: Option<GeoInfo<C>>) -> Option<GeoText<C>> {
    match geo {
        Some(g) => Some(g@),
        None => None,
    }
}

/// What a city record says; a coordinate is given by the bits of its number.
#[derive(Debug, Clone)]
pub struct CityRecord {
    pub country: Option<String>,
    pub city: Option<String>,
    /// Names of the subdivisions, the largest first.
    pub subdivisions: Vec<Option<String>>,
    pub latitude: Option<u64>,
    pub longitude: Option<u64>,
}

/// A city record by its texts and coordinates.
pub struct CityText {
    pub country: Option<Seq<char>>,
    pub city: Option<Seq<char>>,
    pub subdivisions: Seq<Option<Seq<char>>>,
    pub latitude: Option<u64>,
    pub longitude: Option<u64>,
}

impl View for CityRecord {
    type V = CityText;

    open spec fn view(&self) -> CityText {
        CityText {
            country: opt_text(self.country),
            city: opt_text(self.city),
            subdivisions: Seq::new(
                self.subdivisions@.len(),
                |i: int| opt_text(self.subdivisions@[i]),
            ),
            latitude: self.latitude,
            longitude: self.longitude,
        }
    }
}

/// An optional city record by its texts and coordinates.
pub open spec fn opt_city(record: Option<CityRecord>) -> Option<CityText> {
    match record {
        Some(r) => Some(r@),
        None => None,
    }
}

/// What `Reader::from_source` says is wrong with a database, if anything.
pub uninterp spec fn database_fault(database: Seq<u8>) -> Option<Seq<char>>;

/// `maxminddb::Reader::from_source`, read for its error: whether bytes are a
/// database, and what is wrong with them if not. The answer depends on the
/// bytes alone, given a build time that the platform's clock can represent
/// and a search tree whose size the platform can address.
#[verifier::external_body]
fn open_fault(database: &[u8]) -> (r: Option<String>)
    ensures
        opt_text(r) == database_fault(database@),
{
    Reader::from_source(database).err().map(|e| e.to_string())
}

/// What a database holds on an address, as `Reader::lookup` finds it.
pub uninterp spec fn city_record(database: Seq<u8>, ip: IpAddr) -> Option<CityText>;

/// `maxminddb::Reader::lookup` on a database, its result decoded as a city:
/// the record of an address, or nothing if there is none or it cannot be
/// read. Names are the English ones, the country is its ISO code. The answer
/// depends on the bytes and the address alone, given a build time that the
/// platform's clock can represent and a search tree whose size the platform
/// can address.
#[verifier::external_body]
fn read_city(database: &[u8], ip: IpAddr) -> (r: Option<CityRecord>)
    ensures
        opt_city(r) == city_record(database@, ip),
{
    let reader = Reader::from_source(database).ok()?;
    let city: City = match ip {
        IpAddr::V4(a) => reader.lookup(a.bits.to_be_bytes().into()),
        IpAddr::V6(a) => reader.lookup(a.bits.to_be_bytes().into()),
    }.ok()?.decode().ok()??;
    Some(CityRecord {
        country: city.country.iso_code.map(String::from),
        city: city.city.names.english.map(String::from),
        subdivisions: city.subdivisions.iter().map(|s| s.names.english.map(String::from)).collect(),
        latitude: city.location.latitude.map(|v| v.to_bits()),
        longitude: city.location.longitude.map(|v| v.to_bits()),
    })
}

/// What a city record says: nothing without a country; the region is the
/// first subdivision.
pub fn geo_info<C>(
    country: Option<String>,
    city: Option<String>,
    subdivisions: Vec<Option<String>>,
    latitude: Option<C>,
    longitude: Option<C>,
) -> (r: Option<GeoInfo<C>>)
    ensures
        match country {
            Some(c) => r matches Some(geo) && geo.country == c && geo.city == city && geo.latitude
                == latitude && geo.longitude == longitude && geo.region == (
            if subdivisions@.len() > 0 {
                subdivisions@[0]
            } else {
                None
            }),
            None => r is None,
        },
{
    match country {
        Some(country) => {
            let mut subdivisions = subdivisions;
            let region: Option<String> = if subdivisions.len() > 0 {
                subdivisions.remove(0)
            } else {
                None
            };
            Some(GeoInfo { city, region, country, latitude, longitude })
        },
        None => None,
    }
}

/// The place that a city record gives.
pub open spec fn place_of(record: Option<CityText>) -> Option<GeoText<u64>> {
    match record {
        Some(r) => match r.country {
            Some(country) => Some(
                GeoText {
                    city: r.city,
                    region: if r.subdivisions.len() > 0 {
                        r.subdivisions[0]
                    } else {
                        None
                    },
                    country,
                    latitude: r.latitude,
                    longitude: r.longitude,
                },
            ),
            None => None,
        },
        None => None,
    }
}

/// A copy of an optional place.
fn copy_opt_geo(geo: &Option<GeoInfo<u64>>) -> (r: Option<GeoInfo<u64>>)
    ensures
        opt_geo(r) == opt_geo(*geo),
{
    match geo {
        Some(g) => Some(
            GeoInfo {
                city: copy_opt(&g.city),
                region: copy_opt(&g.region),
                country: copy_of(g.country.as_str()),
                latitude: g.latitude,
                longitude: g.longitude,
            },
        ),
        None => None,
    }
}

/// Lookup of places in a database, with a cache.
pub struct GeoLookup {
    pub database: Vec<u8>,
    pub cache: Vec<CacheEntry<Option<GeoInfo<u64>>>>,
}

impl GeoLookup {
    /// Whether the cache is consistent.
    pub open spec fn wf(self) -> bool {
        distinct_ips(self.cache@)
    }

    /// Whether the cache has a usable result for an address.
    pub open spec fn has_cached(self, ip: IpAddr, now: u64) -> bool {
        exists|i: int|
            0 <= i < self.cache@.len() && (#[trigger] self.cache@[i]).ip == ip && fresh(
                self.cache@[i],
                now,
                CACHE_TTL_NANOS,
            )
    }

    /// A lookup in a database, given by its bytes. Bytes that are no database
    /// are an error.
    pub fn new(database: Vec<u8>) -> (r: Result<GeoLookup, String>)
        ensures
            match database_fault(database@) {
                Some(text) => r is Err && r->Err_0@ == text,
                None => r matches Ok(g) && g.wf() && g.database@ == database@ && g.cache@.len()
                    == 0,
            },
    {
        match open_fault(database.as_slice()) {
            Some(text) => Err(text),
            None => Ok(GeoLookup { database, cache: Vec::new() }),
        }
    }

    /// Looks an address up in the database.
    pub fn do_lookup(&self, ip: IpAddr) -> (r: Option<GeoInfo<u64>>)
        ensures
            opt_geo(r) == place_of(city_record(self.database@, ip)),
    {
        match read_city(self.database.as_slice(), ip) {
            Some(record) => geo_info(
                record.country,
                record.city,
                record.subdivisions,
                record.latitude,
                record.longitude,
            ),
            None => None,
        }
    }

    /// Looks an address up: a fresh cached result is the answer; any other is
    /// taken from the database and remembered.
    pub fn lookup(&mut self, ip: IpAddr, now: u64) -> (r: Option<GeoInfo<u64>>)
        requires
            old(self).wf(),
        ensures
            final(self).wf(),
            final(self).database == old(self).database,
            old(self).has_cached(ip, now) ==> final(self).cache == old(self).cache && exists|
                i: int,
            |
                0 <= i < old(self).cache@.len() && (#[trigger] old(self).cache@[i]).ip == ip
                    && fresh(old(self).cache@[i], now, CACHE_TTL_NANOS) && opt_geo(
                    old(self).cache@[i].value,
                ) == opt_geo(r),
            !old(self).has_cached(ip, now) ==> opt_geo(r) == place_of(
                city_record(old(self).database@, ip),
            ) && exists|entry: CacheEntry<Option<GeoInfo<u64>>>|
                entry.ip == ip && entry.cached_at == now && opt_geo(entry.value) == opt_geo(r)
                    && pruned(
                    fresh_entries(
                        #[trigger] with_entry(old(self).cache@, entry),
                        now,
                        CACHE_TTL_NANOS,
                    ),
                    final(self).cache@,
                ),
    {
        match cached(&self.cache, ip, now, CACHE_TTL_NANOS) {
            Some(value) => {
                return copy_opt_geo(value);
            },
            None => {},
        }
        let found: Option<GeoInfo<u64>> = self.do_lookup(ip);
        let value: Option<GeoInfo<u64>> = copy_opt_geo(&found);
        let entry = CacheEntry { ip, value, cached_at: now };
        assert(opt_geo(entry.value) == opt_geo(found));
        remember(&mut self.cache, entry, now, CACHE_TTL_NANOS);
        found
    }
}

/// A place is known by its country: a record without one says nothing, and
/// one with it gives the city, the first subdivision and the coordinates as
/// they are recorded.
pub proof fn law_place_of_record(
    country: Option<String>,
    city: Option<String>,
    subdivisions: Vec<Option<String>>,
    latitude: Option<u64>,
    longitude: Option<u64>,
    r: Option<GeoInfo<u64>>,
)
    requires
        call_ensures(geo_info::<u64>, (country, city, subdivisions, latitude, longitude), r),
    ensures
        r is Some <==> country is Some,
        r matches Some(geo) ==> {
            &&& Some(geo.country) == country
            &&& geo.city == city
            &&& geo.latitude == latitude
            &&& geo.longitude == longitude
            &&& subdivisions@.len() == 0 ==> geo.region is None
            &&& subdivisions@.len() > 0 ==> geo.region == subdivisions@[0]
        },
{
}

/// What a database says of an address is the place of its record there.
pub proof fn law_lookup_reads_record(
    lookup: &GeoLookup,
    ip: IpAddr,
    r: Option<GeoInfo<u64>>,
)
    requires
        call_ensures(GeoLookup::do_lookup, (lookup, ip), r),
    ensures
        match city_record(lookup.database@, ip) {
            Some(record) => {
                &&& r is Some <==> record.country is Some
                &&& r matches Some(geo) ==> {
                    &&& Some(geo.country@) == record.country
                    &&& opt_text(geo.city) == record.city
                    &&& geo.latitude == record.latitude
                    &&& geo.longitude == record.longitude
                    &&& opt_text(geo.region) == (if record.subdivisions.len() > 0 {
                        record.subdivisions[0]
                    } else {
                        None
                    })
                }
            },
            None => r is None,
        },
{
    if let Some(geo) = r {
        assert(opt_geo(r) == Some(geo@));
        assert(geo@.country == geo.country@);
    }
}

} // verus!
