//! The station preamble of an upper-air record.
use vstd::prelude::*;
use vstd::string::StringSliceAdditionalSpecFns;

use crate::error::{BufkitFileError, ErrorKind};
use crate::number::Decimal;
use crate::parse_util::{
    check_missing, decimal_kv, i32_kv, key_value, lemma_key_value_absent, lemma_parse_kv_found,
    parse_f64, parse_i32, parse_kv, parse_naive_date_time, spec_check_missing, time_of_token,
    SLASH,
};
use crate::text::{bytes_equal, is_alphanumeric, is_digit};
use crate::valid_time::ValidTime;

verus! {

/// Where and when a sounding holds.
#[derive(Debug)]
pub struct StationInfo {
    /// The station number, such as 727730.
    pub num: i32,
    /// The valid time of the sounding.
    pub valid_time: ValidTime,
    /// The forecast lead time, in hours from the start of the model run.
    pub lead_time: i32,
    /// The station identifier, mostly three or four letters and digits.
    pub id: Option<Vec<u8>>,
    /// The latitude, in degrees.
    pub lat: Option<Decimal>,
    /// The longitude, in degrees.
    pub lon: Option<Decimal>,
    /// The elevation, in meters.
    pub elevation: Option<Decimal>,
}

/// The value of a `StationInfo`.
pub struct StationInfoView {
    pub num: i32,
    pub valid_time: ValidTime,
    pub lead_time: i32,
    pub id: Option<Seq<u8>>,
    pub lat: Option<Decimal>,
    pub lon: Option<Decimal>,
    pub elevation: Option<Decimal>,
}

impl View for StationInfo {
    type V = StationInfoView;

    open spec fn view(&self) -> StationInfoView {
        StationInfoView {
            num: self.num,
            valid_time: self.valid_time,
            lead_time: self.lead_time,
            id: match self.id {
                Some(v) => Some(v@),
                None => None,
            },
            lat: self.lat,
            lon: self.lon,
            elevation: self.elevation,
        }
    }
}

/// The station identifier that `s` gives, and the text to go on with: the run
/// of letters and digits after `STID`. Where that run is the next key itself,
/// `STNM`, or where `STID` is absent, there is no identifier and the scan goes
/// on from the start of `s`.
pub open spec fn station_id_kv(s: Seq<u8>) -> (Option<Seq<u8>>, Seq<u8>) {
    match key_value(
        s,
        "STID".spec_bytes(),
        |b: u8| is_alphanumeric(b),
        |b: u8| !is_alphanumeric(b),
    ) {
        None => (None, s),
        Some((p, q)) => if s.subrange(p, q) == "STNM".spec_bytes() {
            (None, s)
        } else {
            (Some(s.subrange(p, q)), s.subrange(q, s.len() as int))
        },
    }
}

/// The integer value of a key that must be present, and the text after it.
pub open spec fn required_i32_kv(s: Seq<u8>, key: Seq<u8>) -> Result<(i32, Seq<u8>), ErrorKind> {
    match i32_kv(s, key) {
        Ok(found) => Ok(found),
        Err(ErrorKind::MalformedKeyValue) => Err(ErrorKind::MissingRequiredField),
        Err(kind) => Err(kind),
    }
}

/// The decimal value of a key that may be absent, and the text to go on with.
/// A key that is not found, or that no value follows, gives nothing and leaves
/// the text as it is; the missing value gives nothing either. A value that is
/// no decimal fails.
pub open spec fn optional_field_kv(s: Seq<u8>, key: Seq<u8>) -> Result<
    (Option<Decimal>, Seq<u8>),
    ErrorKind,
> {
    match decimal_kv(s, key) {
        Ok((d, rest)) => Ok((spec_check_missing(d), rest)),
        Err(ErrorKind::MalformedKeyValue) => Ok((None, s)),
        Err(kind) => Err(kind),
    }
}

/// The valid time after the key `TIME`, and the text after it.
pub open spec fn time_kv(s: Seq<u8>) -> Result<(ValidTime, Seq<u8>), ErrorKind> {
    match key_value(
        s,
        "TIME".spec_bytes(),
        |b: u8| is_digit(b),
        |b: u8| !(is_digit(b) || b == SLASH),
    ) {
        None => Err(ErrorKind::MissingRequiredField),
        Some((p, q)) => match time_of_token(s.subrange(p, q)) {
            Some(vt) => Ok((vt, s.subrange(q, s.len() as int))),
            None => Err(ErrorKind::InvalidTimestamp),
        },
    }
}

/// The station information that the preamble `s` gives. The keys are looked
/// for in the order `STID`, `STNM`, `TIME`, `SLAT`, `SLON`, `SELV`, `STIM`,
/// each after the value of the one before.
pub open spec fn station_info_of(s: Seq<u8>) -> Result<StationInfoView, ErrorKind> {
    let (id, s1) = station_id_kv(s);
    match required_i32_kv(s1, "STNM".spec_bytes()) {
        Err(kind) => Err(kind),
        Ok((num, s2)) => match time_kv(s2) {
            Err(kind) => Err(kind),
            Ok((valid_time, s3)) => match optional_field_kv(s3, "SLAT".spec_bytes()) {
                Err(kind) => Err(kind),
                Ok((lat, s4)) => match optional_field_kv(s4, "SLON".spec_bytes()) {
                    Err(kind) => Err(kind),
                    Ok((lon, s5)) => match optional_field_kv(s5, "SELV".spec_bytes()) {
                        Err(kind) => Err(kind),
                        Ok((elevation, s6)) => match required_i32_kv(s6, "STIM".spec_bytes()) {
                            Err(kind) => Err(kind),
                            Ok((lead_time, _)) => Ok(
                                StationInfoView {
                                    num,
                                    valid_time,
                                    lead_time,
                                    id,
                                    lat,
                                    lon,
                                    elevation,
                                },
                            ),
                        },
                    },
                },
            },
        },
    }
}

/// Reads the integer of a key that must be present.
pub fn parse_required_i32<'a>(src: &'a [u8], key: &[u8]) -> (r: Result<
    (i32, &'a [u8]),
    BufkitFileError,
>)
    ensures
        match required_i32_kv(src@, key@) {
            Ok((v, rest)) => r is Ok && r->Ok_0.0 == v && r->Ok_0.1@ == rest,
            Err(kind) => r is Err && r->Err_0.kind == kind,
        },
{
    match parse_i32(src, key) {
        Ok(found) => Ok(found),
        Err(e) => match e.kind {
            ErrorKind::MalformedKeyValue => Err(
                BufkitFileError::new(ErrorKind::MissingRequiredField),
            ),
            _ => Err(e),
        },
    }
}

/// Reads the decimal of a key that may be absent.
pub fn parse_optional_field<'a>(src: &'a [u8], key: &[u8]) -> (r: Result<
    (Option<Decimal>, &'a [u8]),
    BufkitFileError,
>)
    ensures
        match optional_field_kv(src@, key@) {
            Ok((v, rest)) => r is Ok && r->Ok_0.0 == v && r->Ok_0.1@ == rest,
            Err(kind) => r is Err && r->Err_0.kind == kind,
        },
{
    match parse_f64(src, key) {
        Ok((d, rest)) => Ok((check_missing(d), rest)),
        Err(e) => match e.kind {
            ErrorKind::MalformedKeyValue => Ok((None, src)),
            _ => Err(e),
        },
    }
}

/// Reads the station identifier.
fn parse_station_id<'a>(src: &'a [u8]) -> (r: (Option<Vec<u8>>, &'a [u8]))
    ensures
        match station_id_kv(src@).0 {
            Some(id) => r.0 is Some && r.0->0@ == id,
            None => r.0 is None,
        },
        r.1@ == station_id_kv(src@).1,
{
    let start_val = |b: u8| -> (r: bool)
        ensures
            r == is_alphanumeric(b),
        { is_alphanumeric(b) };
    let end_val = |b: u8| -> (r: bool)
        ensures
            r == !is_alphanumeric(b),
        { !is_alphanumeric(b) };
    let ghost start = |b: u8| is_alphanumeric(b);
    let ghost stop = |b: u8| !is_alphanumeric(b);
    match parse_kv(src, "STID".as_bytes(), start_val, end_val) {
        Ok((value, rest)) => {
            proof {
                lemma_parse_kv_found(
                    src@,
                    "STID".spec_bytes(),
                    start_val,
                    end_val,
                    start,
                    stop,
                    value@,
                    rest@,
                );
            }
            if bytes_equal(value, "STNM".as_bytes()) {
                (None, src)
            } else {
                (Some(vstd::slice::slice_to_vec(value)), rest)
            }
        },
        Err(_) => {
            proof {
                lemma_key_value_absent(src@, "STID".spec_bytes(), start_val, start, stop);
            }
            (None, src)
        },
    }
}

/// Reads the valid time after the key `TIME`.
fn parse_time<'a>(src: &'a [u8]) -> (r: Result<(ValidTime, &'a [u8]), BufkitFileError>)
    ensures
        match time_kv(src@) {
            Ok((vt, rest)) => r is Ok && r->Ok_0.0 == vt && r->Ok_0.1@ == rest && vt.wf(),
            Err(kind) => r is Err && r->Err_0.kind == kind,
        },
{
    let start_val = |b: u8| -> (r: bool)
        ensures
            r == is_digit(b),
        { is_digit(b) };
    let end_val = |b: u8| -> (r: bool)
        ensures
            r == !(is_digit(b) || b == SLASH),
        { !(is_digit(b) || b == SLASH) };
    let ghost start = |b: u8| is_digit(b);
    let ghost stop = |b: u8| !(is_digit(b) || b == SLASH);
    match parse_kv(src, "TIME".as_bytes(), start_val, end_val) {
        Ok((value, rest)) => {
            proof {
                lemma_parse_kv_found(
                    src@,
                    "TIME".spec_bytes(),
                    start_val,
                    end_val,
                    start,
                    stop,
                    value@,
                    rest@,
                );
            }
            match parse_naive_date_time(value) {
                Ok(vt) => Ok((vt, rest)),
                Err(e) => Err(e),
            }
        },
        Err(_) => {
            proof {
                lemma_key_value_absent(src@, "TIME".spec_bytes(), start_val, start, stop);
            }
            Err(BufkitFileError::new(ErrorKind::MissingRequiredField))
        },
    }
}

impl StationInfo {
    /// Parses the station preamble of an upper-air record.
    ///
    /// The station number, the valid time and the lead time must be there:
    /// without one of them the preamble fails with `MissingRequiredField`. The
    /// identifier, the latitude, the longitude and the elevation may each be
    /// absent. A time that is no valid time fails with `InvalidTimestamp`, and
    /// a number that is no number of its type with `NumericConversion`.
    pub fn parse(src: &[u8]) -> (r: Result<StationInfo, BufkitFileError>)
        ensures
            match station_info_of(src@) {
                Ok(info) => r is Ok && r->Ok_0@ == info && r->Ok_0.valid_time.wf(),
                Err(kind) => r is Err && r->Err_0.kind == kind,
            },
    {
        let (id, head) = parse_station_id(src);
        let (num, head) = match parse_required_i32(head, "STNM".as_bytes()) {
            Ok(found) => found,
            Err(e) => {
                return Err(e);
            },
        };
        let (valid_time, head) = match parse_time(head) {
            Ok(found) => found,
            Err(e) => {
                return Err(e);
            },
        };
        let (lat, head) = match parse_optional_field(head, "SLAT".as_bytes()) {
            Ok(found) => found,
            Err(e) => {
                return Err(e);
            },
        };
        let (lon, head) = match parse_optional_field(head, "SLON".as_bytes()) {
            Ok(found) => found,
            Err(e) => {
                return Err(e);
            },
        };
        let (elevation, head) = match parse_optional_field(head, "SELV".as_bytes()) {
            Ok(found) => found,
            Err(e) => {
                return Err(e);
            },
        };
        let (lead_time, _) = match parse_required_i32(head, "STIM".as_bytes()) {
            Ok(found) => found,
            Err(e) => {
                return Err(e);
            },
        };
        Ok(StationInfo { num, valid_time, lead_time, id, lat, lon, elevation })
    }
}

} // verus!
