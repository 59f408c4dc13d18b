//! The upper-air section: one station preamble, one line of stability indexes
//! and one profile table for each forecast time.
pub mod indexes;
pub mod profile;
pub mod station_info;

use vstd::prelude::*;

use crate::bufkit_data::upper_air::indexes::{indexes_of, Indexes};
use crate::bufkit_data::upper_air::profile::{profile_of, Profile, ProfileView, WindSpdDir};
use crate::bufkit_data::upper_air::station_info::{
    station_info_of, StationInfo, StationInfoView,
};
use crate::error::{BufkitFileError, ErrorKind};
use crate::number::Decimal;
use crate::parse_util::{find_blank_line, section_boundary};
use crate::valid_time::ValidTime;

verus! {

/// All the values of one sounding.
#[derive(Debug)]
pub struct UpperAir {
    /// The station number, such as 727730.
    pub num: i32,
    /// The valid time of the sounding.
    pub valid_time: ValidTime,
    /// The forecast lead time, in hours from the start of the model run.
    pub lead_time: i32,
    /// The station identifier, mostly three or four letters and digits.
    pub id: Option<Vec<u8>>,
    /// The latitude, in degrees.
    pub lat: Option<Decimal>,
    /// The longitude, in degrees.
    pub lon: Option<Decimal>,
    /// The elevation, in meters.
    pub elevation: Option<Decimal>,
    /// The Showalter index.
    pub show: Option<Decimal>,
    /// The lifted index.
    pub li: Option<Decimal>,
    /// The severe weather threat index.
    pub swet: Option<Decimal>,
    /// The K index.
    pub kinx: Option<Decimal>,
    /// The pressure at the lifting condensation level, in hPa.
    pub lclp: Option<Decimal>,
    /// The precipitable water, in mm.
    pub pwat: Option<Decimal>,
    /// The total totals index.
    pub totl: Option<Decimal>,
    /// The convective available potential energy, in J/kg.
    pub cape: Option<Decimal>,
    /// The temperature at the lifting condensation level, in K.
    pub lclt: Option<Decimal>,
    /// The convective inhibition, in J/kg.
    pub cins: Option<Decimal>,
    /// The equilibrium level, in hPa.
    pub eqlv: Option<Decimal>,
    /// The level of free convection, in hPa.
    pub lfc: Option<Decimal>,
    /// The bulk Richardson number.
    pub brch: Option<Decimal>,
    /// The pressure of each level, in hPa.
    pub pressure: Vec<Option<Decimal>>,
    /// The temperature, in degrees Celsius.
    pub temperature: Vec<Option<Decimal>>,
    /// The wet bulb temperature, in degrees Celsius.
    pub wet_bulb: Vec<Option<Decimal>>,
    /// The dew point, in degrees Celsius.
    pub dew_point: Vec<Option<Decimal>>,
    /// The equivalent potential temperature, in K.
    pub theta_e: Vec<Option<Decimal>>,
    /// The wind: direction in degrees, speed in knots.
    pub wind: Vec<Option<WindSpdDir>>,
    /// The pressure vertical velocity, in Pa/s.
    pub omega: Vec<Option<Decimal>>,
    /// The height above mean sea level, in meters.
    pub height: Vec<Option<Decimal>>,
    /// The cloud fraction, in percent.
    pub cloud_fraction: Vec<Option<Decimal>>,
}

/// The value of an `UpperAir`, in its three parts.
pub struct UpperAirView {
    pub station: StationInfoView,
    pub indexes: Indexes,
    pub profile: ProfileView,
}

impl View for UpperAir {
    type V = UpperAirView;

    open spec fn view(&self) -> UpperAirView {
        UpperAirView {
            station: StationInfoView {
                num: self.num,
                valid_time: self.valid_time,
                lead_time: self.lead_time,
                id: match self.id {
                    Some(v) => Some(v@),
                    None => None,
                },
                lat: self.lat,
                lon: self.lon,
                elevation: self.elevation,
            },
            indexes: Indexes {
                show: self.show,
                li: self.li,
                swet: self.swet,
                kinx: self.kinx,
                lclp: self.lclp,
                pwat: self.pwat,
                totl: self.totl,
                cape: self.cape,
                lclt: self.lclt,
                cins: self.cins,
                eqlv: self.eqlv,
                lfc: self.lfc,
                brch: self.brch,
            },
            profile: ProfileView {
                pressure: self.pressure@,
                temperature: self.temperature@,
                wet_bulb: self.wet_bulb@,
                dew_point: self.dew_point@,
                theta_e: self.theta_e@,
                wind: self.wind@,
                omega: self.omega@,
                height: self.height@,
                cloud_fraction: self.cloud_fraction@,
            },
        }
    }
}

/// Whether a column has no entry at all, or as many as `len`.
pub open spec fn is_absent_or_full(column_len: nat, len: nat) -> bool {
    column_len == 0 || column_len == len
}

impl ProfileView {
    /// Whether the profile has a level at least, and every column is either
    /// empty or has an entry for every level.
    pub open spec fn is_consistent(&self) -> bool {
        let len = self.pressure.len();
        &&& len > 0
        &&& is_absent_or_full(self.temperature.len(), len)
        &&& is_absent_or_full(self.wet_bulb.len(), len)
        &&& is_absent_or_full(self.dew_point.len(), len)
        &&& is_absent_or_full(self.theta_e.len(), len)
        &&& is_absent_or_full(self.wind.len(), len)
        &&& is_absent_or_full(self.omega.len(), len)
        &&& is_absent_or_full(self.height.len(), len)
        &&& is_absent_or_full(self.cloud_fraction.len(), len)
    }
}

/// The sounding that the record text `s` gives. The first blank line ends the
/// station preamble, the second ends the stability indexes, and the profile
/// table is what follows.
pub open spec fn upper_air_of(s: Seq<u8>) -> Result<UpperAirView, ErrorKind> {
    match section_boundary(s) {
        None => Err(ErrorKind::SectionBoundaryNotFound),
        Some(b1) => {
            let rest = s.subrange(b1, s.len() as int);
            match section_boundary(rest) {
                None => Err(ErrorKind::SectionBoundaryNotFound),
                Some(b2) => match station_info_of(s.subrange(0, b1)) {
                    Err(kind) => Err(kind),
                    Ok(station) => match profile_of(rest.subrange(b2, rest.len() as int)) {
                        Err(kind) => Err(kind),
                        Ok(profile) => Ok(
                            UpperAirView {
                                station,
                                indexes: indexes_of(rest.subrange(0, b2)),
                                profile,
                            },
                        ),
                    },
                },
            }
        },
    }
}

/// Whether a column length is zero or `len`.
fn is_valid_length(column_len: usize, len: usize) -> (r: bool)
    ensures
        r == is_absent_or_full(column_len as nat, len as nat),
{
    column_len == 0 || column_len == len
}

impl UpperAir {
    /// Parses the text of one upper-air record into a sounding.
    ///
    /// The text must hold two blank lines, which part the station preamble,
    /// the stability indexes and the profile table: without them it fails
    /// with `SectionBoundaryNotFound`. After that the first failure of the
    /// station preamble or of the profile table is the failure of the record.
    pub fn parse(text: &[u8]) -> (r: Result<UpperAir, BufkitFileError>)
        ensures
            match upper_air_of(text@) {
                Ok(ua) => r is Ok && r->Ok_0@ == ua && r->Ok_0.valid_time.wf(),
                Err(kind) => r is Err && r->Err_0.kind == kind,
            },
    {
        let n: usize = text.len();
        let b1: usize = match find_blank_line(text) {
            Some(b) => b,
            None => {
                return Err(BufkitFileError::new(ErrorKind::SectionBoundaryNotFound));
            },
        };
        let station_info_section = vstd::slice::slice_subrange(text, 0, b1);
        let the_rest = vstd::slice::slice_subrange(text, b1, n);
        let b2: usize = match find_blank_line(the_rest) {
            Some(b) => b,
            None => {
                return Err(BufkitFileError::new(ErrorKind::SectionBoundaryNotFound));
            },
        };
        let index_section = vstd::slice::slice_subrange(the_rest, 0, b2);
        let upper_air_section = vstd::slice::slice_subrange(the_rest, b2, the_rest.len());
        let station_info = match StationInfo::parse(station_info_section) {
            Ok(info) => info,
            Err(e) => {
                return Err(e);
            },
        };
        let indexes = match Indexes::parse(index_section) {
            Ok(indexes) => indexes,
            Err(e) => {
                return Err(e);
            },
        };
        let upper_air = match Profile::parse(upper_air_section) {
            Ok(profile) => profile,
            Err(e) => {
                return Err(e);
            },
        };
        Ok(
            UpperAir {
                num: station_info.num,
                valid_time: station_info.valid_time,
                lead_time: station_info.lead_time,
                id: station_info.id,
                lat: station_info.lat,
                lon: station_info.lon,
                elevation: station_info.elevation,
                show: indexes.show,
                li: indexes.li,
                swet: indexes.swet,
                kinx: indexes.kinx,
                lclp: indexes.lclp,
                pwat: indexes.pwat,
                totl: indexes.totl,
                cape: indexes.cape,
                lclt: indexes.lclt,
                cins: indexes.cins,
                eqlv: indexes.eqlv,
                lfc: indexes.lfc,
                brch: indexes.brch,
                pressure: upper_air.pressure,
                temperature: upper_air.temperature,
                wet_bulb: upper_air.wet_bulb,
                dew_point: upper_air.dew_point,
                theta_e: upper_air.theta_e,
                wind: upper_air.wind,
                omega: upper_air.omega,
                height: upper_air.height,
                cloud_fraction: upper_air.cloud_fraction,
            },
        )
    }

    /// Validates the sounding: the pressure must have a level at least, and
    /// every other column must be empty or as long as the pressure. Otherwise
    /// the sounding fails with `InconsistentProfileLength`.
    pub fn validate(&self) -> (r: Result<(), BufkitFileError>)
        ensures
            r is Ok <==> self@.profile.is_consistent(),
            r is Err ==> r->Err_0.kind == ErrorKind::InconsistentProfileLength,
    {
        let len: usize = self.pressure.len();
        if len > 0 && is_valid_length(self.temperature.len(), len) && is_valid_length(
            self.wet_bulb.len(),
            len,
        ) && is_valid_length(self.dew_point.len(), len) && is_valid_length(
            self.theta_e.len(),
            len,
        ) && is_valid_length(self.wind.len(), len) && is_valid_length(self.omega.len(), len)
            && is_valid_length(self.height.len(), len) && is_valid_length(
            self.cloud_fraction.len(),
            len,
        ) {
            Ok(())
        } else {
            Err(BufkitFileError::new(ErrorKind::InconsistentProfileLength))
        }
    }
}

} // verus!
