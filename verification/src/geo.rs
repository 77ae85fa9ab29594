//! Enrichment: country, city and autonomous-system metadata for an
//! accepted address. The databases are maxminddb's, consumed through
//! trusted items; combining their raw answers into a record is verified.
//! Lookups are descriptive only: every failure degrades to empty fields.

use vstd::prelude::*;

use crate::filter::AnonymityFlags;
use crate::ip::spec_parse_ip;
use crate::text::{dec_digits, render_u64};

verus! {

/// One loaded database: maxminddb's reader over the database's bytes.
/// Verus refuses the reader type's own declaration (its type parameter
/// carries an `AsRef` bound), so the handle is held opaquely and only
/// the trusted items of this module touch it.
#[verifier::external_body]
pub struct GeoDatabase {
    reader: maxminddb::Reader<Vec<u8>>,
}

/// Relies on maxminddb's `Reader::from_source`: reads a database out of
/// its raw bytes; bytes that are no database yield no handle.
#[verifier::external_body]
pub fn open_geo_database(data: Vec<u8>) -> (r: Option<GeoDatabase>) {
    match maxminddb::Reader::from_source(data) {
        Ok(reader) => Some(GeoDatabase { reader }),
        Err(_) => None,
    }
}

/// What the country database answered for one address.
pub struct CountryRaw {
    /// Two-letter country code.
    pub iso_code: Option<String>,
    /// Country name in the preferred language.
    pub name_preferred: Option<String>,
    /// Country name in the fallback language.
    pub name_fallback: Option<String>,
}

/// What the city database answered for one address.
pub struct CityRaw {
    /// City name in the preferred language.
    pub name_preferred: Option<String>,
    /// City name in the fallback language, which also stands in for a
    /// city code, since the databases carry none.
    pub name_fallback: Option<String>,
}

/// What the autonomous-system database answered for one address.
pub struct AsnRaw {
    /// Autonomous-system number.
    pub number: Option<u32>,
    /// Organisation that the system is registered to.
    pub organization: Option<String>,
}

/// Relies on maxminddb's `Reader::lookup` and record decoding for a
/// country database: a malformed address, a lookup error, a miss or an
/// undecodable record all read as no answer.
#[verifier::external_body]
pub(crate) fn lookup_country(db: &GeoDatabase, ip: &str) -> (r: Option<CountryRaw>) {
    let addr = ip.parse().ok()?;
    let res = db.reader.lookup(addr).ok()?;
    let rec = res.decode::<maxminddb::geoip2::Country>().ok()??;
    Some(CountryRaw {
        iso_code: rec.country.iso_code.map(|s| s.to_string()),
        name_preferred: rec.country.names.simplified_chinese.map(|s| s.to_string()),
        name_fallback: rec.country.names.english.map(|s| s.to_string()),
    })
}

/// Relies on maxminddb's `Reader::lookup` and record decoding for a
/// city database, as `lookup_country` does for a country database.
#[verifier::external_body]
pub(crate) fn lookup_city(db: &GeoDatabase, ip: &str) -> (r: Option<CityRaw>) {
    let addr = ip.parse().ok()?;
    let res = db.reader.lookup(addr).ok()?;
    let rec = res.decode::<maxminddb::geoip2::City>().ok()??;
    Some(CityRaw {
        name_preferred: rec.city.names.simplified_chinese.map(|s| s.to_string()),
        name_fallback: rec.city.names.english.map(|s| s.to_string()),
    })
}

/// Relies on maxminddb's `Reader::lookup` and record decoding for an
/// autonomous-system database, as `lookup_country` does.
#[verifier::external_body]
pub(crate) fn lookup_asn(db: &GeoDatabase, ip: &str) -> (r: Option<AsnRaw>) {
    let addr = ip.parse().ok()?;
    let res = db.reader.lookup(addr).ok()?;
    let rec = res.decode::<maxminddb::geoip2::Asn>().ok()??;
    Some(AsnRaw {
        number: rec.autonomous_system_number,
        organization: rec.autonomous_system_organization.map(|s| s.to_string()),
    })
}

/// Relies on maxminddb's `Reader::lookup` and record decoding for an
/// anonymity database: each absent flag reads as false, and a malformed
/// address, a lookup error or a miss reads as no answer.
#[verifier::external_body]
pub(crate) fn lookup_anonymity(db: &GeoDatabase, ip: &str) -> (r: Option<AnonymityFlags>) {
    let addr = ip.parse().ok()?;
    let res = db.reader.lookup(addr).ok()?;
    let rec = res.decode::<maxminddb::geoip2::AnonymousIp>().ok()??;
    Some(AnonymityFlags {
        vpn: rec.is_anonymous_vpn.unwrap_or(false),
        public_proxy: rec.is_public_proxy.unwrap_or(false),
        tor_exit: rec.is_tor_exit_node.unwrap_or(false),
    })
}

/// The enrichment metadata of one accepted candidate: every field is
/// descriptive only and defaults to empty.
#[derive(Debug)]
pub struct GeoRecord {
    pub country_code: String,
    pub country_name: String,
    pub city_code: String,
    pub city_name: String,
    pub asn_number: String,
    pub org_name: String,
}

/// The mathematical image of a `GeoRecord`.
pub ghost struct SpecGeoRecord {
    pub country_code: Seq<char>,
    pub country_name: Seq<char>,
    pub city_code: Seq<char>,
    pub city_name: Seq<char>,
    pub asn_number: Seq<char>,
    pub org_name: Seq<char>,
}

impl View for GeoRecord {
    type V = SpecGeoRecord;

    open spec fn view(&self) -> SpecGeoRecord {
        SpecGeoRecord {
            country_code: self.country_code@,
            country_name: self.country_name@,
            city_code: self.city_code@,
            city_name: self.city_name@,
            asn_number: self.asn_number@,
            org_name: self.org_name@,
        }
    }
}

/// The text of an optional answer, empty when absent.
pub open spec fn spec_opt_text(o: Option<String>) -> Seq<char> {
    match o {
        Some(s) => s@,
        None => Seq::<char>::empty(),
    }
}

/// The preferred-language name, else the fallback name, else empty.
pub open spec fn spec_pick_name(pref: Option<String>, fall: Option<String>) -> Seq<char> {
    match pref {
        Some(p) => p@,
        None => spec_opt_text(fall),
    }
}

/// The record with every field empty.
pub open spec fn spec_empty_geo() -> SpecGeoRecord {
    SpecGeoRecord {
        country_code: Seq::<char>::empty(),
        country_name: Seq::<char>::empty(),
        city_code: Seq::<char>::empty(),
        city_name: Seq::<char>::empty(),
        asn_number: Seq::<char>::empty(),
        org_name: Seq::<char>::empty(),
    }
}

/// How raw database answers combine into the record: codes taken as
/// answered, names picked preferred-first, the system number rendered
/// in decimal, and every absent answer an empty field.
pub open spec fn spec_build_geo(
    country: Option<CountryRaw>,
    city: Option<CityRaw>,
    asn: Option<AsnRaw>,
) -> SpecGeoRecord {
    SpecGeoRecord {
        country_code: match country {
            Some(c) => spec_opt_text(c.iso_code),
            None => Seq::<char>::empty(),
        },
        country_name: match country {
            Some(c) => spec_pick_name(c.name_preferred, c.name_fallback),
            None => Seq::<char>::empty(),
        },
        city_code: match city {
            Some(c) => spec_opt_text(c.name_fallback),
            None => Seq::<char>::empty(),
        },
        city_name: match city {
            Some(c) => spec_pick_name(c.name_preferred, c.name_fallback),
            None => Seq::<char>::empty(),
        },
        asn_number: match asn {
            Some(a) => match a.number {
                Some(n) => dec_digits(n as int),
                None => Seq::<char>::empty(),
            },
            None => Seq::<char>::empty(),
        },
        org_name: match asn {
            Some(a) => spec_opt_text(a.organization),
            None => Seq::<char>::empty(),
        },
    }
}

fn opt_text(o: Option<String>) -> (r: String)
    ensures
        r@ == spec_opt_text(o),
{
    match o {
        Some(s) => s,
        None => String::new(),
    }
}

fn pick_name(pref: Option<String>, fall: Option<String>) -> (r: String)
    ensures
        r@ == spec_pick_name(pref, fall),
{
    match pref {
        Some(p) => p,
        None => opt_text(fall),
    }
}

/// Combines the raw database answers into the enrichment record.
pub fn build_geo_record(country: Option<CountryRaw>, city: Option<CityRaw>, asn: Option<AsnRaw>) -> (r:
    GeoRecord)
    ensures
        r@ == spec_build_geo(country, city, asn),
{
    let (country_code, country_name) = match country {
        Some(c) => (opt_text(c.iso_code), pick_name(c.name_preferred, c.name_fallback)),
        None => (String::new(), String::new()),
    };
    let (city_code, city_name) = match city {
        Some(c) => {
            let code = match &c.name_fallback {
                Some(s) => s.clone(),
                None => String::new(),
            };
            (code, pick_name(c.name_preferred, c.name_fallback))
        },
        None => (String::new(), String::new()),
    };
    let (asn_number, org_name) = match asn {
        Some(a) => {
            let num = match a.number {
                Some(n) => render_u64(n as u64),
                None => String::new(),
            };
            (num, opt_text(a.organization))
        },
        None => (String::new(), String::new()),
    };
    GeoRecord { country_code, country_name, city_code, city_name, asn_number, org_name }
}

/// Enriches one address: looks it up in whichever databases are loaded
/// and combines the answers. A malformed address yields the empty
/// record, an absent database empty fields, and no input is an error.
pub fn enrich(
    ip: &str,
    country_reader: &GeoDatabase,
    city_reader: Option<&GeoDatabase>,
    asn_reader: Option<&GeoDatabase>,
) -> (r: GeoRecord)
    ensures
        spec_parse_ip(ip@) is None ==> r@ == spec_empty_geo(),
        city_reader is None ==> r@.city_code == Seq::<char>::empty() && r@.city_name
            == Seq::<char>::empty(),
        asn_reader is None ==> r@.asn_number == Seq::<char>::empty() && r@.org_name
            == Seq::<char>::empty(),
{
    if crate::ip::parse_ip_text(ip).is_none() {
        return build_geo_record(None, None, None);
    }
    let country = lookup_country(country_reader, ip);
    let city = match city_reader {
        Some(db) => lookup_city(db, ip),
        None => None,
    };
    let asn = match asn_reader {
        Some(db) => lookup_asn(db, ip),
        None => None,
    };
    build_geo_record(country, city, asn)
}

} // verus!
