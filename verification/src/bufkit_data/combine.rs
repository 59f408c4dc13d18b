//! Joins an upper-air record and a surface record of one valid time into one
//! sounding for analysis.
use std::collections::HashMap;
use vstd::prelude::*;

use crate::bufkit_data::surface::{SurfaceData, WindUV};
use crate::bufkit_data::upper_air::indexes::Indexes;
use crate::bufkit_data::upper_air::profile::WindSpdDir;
use crate::bufkit_data::upper_air::{UpperAir, UpperAirView};
use crate::number::{Decimal, MISSING_I32};
use crate::parse_util::check_missing_i32;
use crate::valid_time::ValidTime;

verus! {

/// A kind of precipitation that a weather symbol can stand for.
#[derive(Debug, Clone, Copy, PartialEq, Eq, Structural)]
pub enum PrecipType {
    LightRain,
    LightFreezingRain,
    LightSnow,
    LightIcePellets,
}

/// The number of a kind of precipitation in the table of present weather
/// codes that `sounding_analysis::PrecipType` follows.
pub open spec fn precip_code(kind: PrecipType) -> u8 {
    match kind {
        PrecipType::LightRain => 61,
        PrecipType::LightFreezingRain => 64,
        PrecipType::LightSnow => 71,
        PrecipType::LightIcePellets => 74,
    }
}

/// Asks `sounding_analysis::PrecipType` for the number of a kind of
/// precipitation, by casting the variant of the same name to a byte.
///
/// The contract states the numbers that the enum gives its variants
/// `LightRain`, `LightFreezingRain`, `LightSnow` and `LightIcePellets`:
/// 61, 64, 71 and 74. Nothing of this is proved here.
#[verifier::external_body]
fn precip_type_code(kind: PrecipType) -> (code: u8)
    ensures
        code == precip_code(kind),
{
    match kind {
        PrecipType::LightRain => sounding_analysis::PrecipType::LightRain as u8,
        PrecipType::LightFreezingRain => sounding_analysis::PrecipType::LightFreezingRain as u8,
        PrecipType::LightSnow => sounding_analysis::PrecipType::LightSnow as u8,
        PrecipType::LightIcePellets => sounding_analysis::PrecipType::LightIcePellets as u8,
    }
}

/// The kind of precipitation that a weather symbol number stands for. Only
/// the numbers 60, 66, 70 and 79 stand for one.
pub open spec fn spec_derived_wx_code(wx_code: Option<u8>) -> Option<PrecipType> {
    match wx_code {
        Some(60) => Some(PrecipType::LightRain),
        Some(66) => Some(PrecipType::LightFreezingRain),
        Some(70) => Some(PrecipType::LightSnow),
        Some(79) => Some(PrecipType::LightIcePellets),
        _ => None,
    }
}

/// Gives the kind of precipitation that the weather symbol number of a
/// surface record stands for.
///
/// The symbol number alone decides. The four flags of the surface record are
/// taken along and never change the answer: without a number that stands for
/// precipitation there is none.
pub fn derived_wx_code(
    wx_code: Option<u8>,
    is_rain: Option<bool>,
    is_snow: Option<bool>,
    is_fzra: Option<bool>,
    is_ip: Option<bool>,
) -> (r: Option<PrecipType>)
    ensures
        r == spec_derived_wx_code(wx_code),
{
    match wx_code {
        Some(60) => Some(PrecipType::LightRain),
        Some(66) => Some(PrecipType::LightFreezingRain),
        Some(70) => Some(PrecipType::LightSnow),
        Some(79) => Some(PrecipType::LightIcePellets),
        _ => None,
    }
}

/// The values beside the sounding itself that a BUFKIT file gives for one
/// valid time.
#[derive(Debug, Clone, Copy, PartialEq, Eq, Structural)]
pub enum ProviderField {
    Showalter,
    Swet,
    K,
    Li,
    Lcl,
    Pwat,
    TotalTotals,
    Cape,
    Cin,
    LclTemperature,
    EquilibriumLevel,
    Lfc,
    BulkRichardsonNumber,
    SkinTemperature,
    Layer1SoilTemp,
    SnowFall1Hour,
    Precipitation1Hr,
    ConvectivePrecip1Hr,
    Layer2SoilTemp,
    SnowRatio,
    StormRelativeHelicity,
    StormMotionU,
    StormMotionV,
    WxSymbolCode,
}

/// The number of fields.
pub const FIELD_COUNT: usize = 24;

impl ProviderField {
    /// The place of the field in the order of the fields, counted from zero.
    pub open spec fn rank(&self) -> int {
        match self {
            ProviderField::Showalter => 0,
            ProviderField::Swet => 1,
            ProviderField::K => 2,
            ProviderField::Li => 3,
            ProviderField::Lcl => 4,
            ProviderField::Pwat => 5,
            ProviderField::TotalTotals => 6,
            ProviderField::Cape => 7,
            ProviderField::Cin => 8,
            ProviderField::LclTemperature => 9,
            ProviderField::EquilibriumLevel => 10,
            ProviderField::Lfc => 11,
            ProviderField::BulkRichardsonNumber => 12,
            ProviderField::SkinTemperature => 13,
            ProviderField::Layer1SoilTemp => 14,
            ProviderField::SnowFall1Hour => 15,
            ProviderField::Precipitation1Hr => 16,
            ProviderField::ConvectivePrecip1Hr => 17,
            ProviderField::Layer2SoilTemp => 18,
            ProviderField::SnowRatio => 19,
            ProviderField::StormRelativeHelicity => 20,
            ProviderField::StormMotionU => 21,
            ProviderField::StormMotionV => 22,
            ProviderField::WxSymbolCode => 23,
        }
    }

    /// The field at the place `i` of the order of the fields.
    pub open spec fn spec_at(i: int) -> ProviderField {
        if i == 0 {
            ProviderField::Showalter
        } else if i == 1 {
            ProviderField::Swet
        } else if i == 2 {
            ProviderField::K
        } else if i == 3 {
            ProviderField::Li
        } else if i == 4 {
            ProviderField::Lcl
        } else if i == 5 {
            ProviderField::Pwat
        } else if i == 6 {
            ProviderField::TotalTotals
        } else if i == 7 {
            ProviderField::Cape
        } else if i == 8 {
            ProviderField::Cin
        } else if i == 9 {
            ProviderField::LclTemperature
        } else if i == 10 {
            ProviderField::EquilibriumLevel
        } else if i == 11 {
            ProviderField::Lfc
        } else if i == 12 {
            ProviderField::BulkRichardsonNumber
        } else if i == 13 {
            ProviderField::SkinTemperature
        } else if i == 14 {
            ProviderField::Layer1SoilTemp
        } else if i == 15 {
            ProviderField::SnowFall1Hour
        } else if i == 16 {
            ProviderField::Precipitation1Hr
        } else if i == 17 {
            ProviderField::ConvectivePrecip1Hr
        } else if i == 18 {
            ProviderField::Layer2SoilTemp
        } else if i == 19 {
            ProviderField::SnowRatio
        } else if i == 20 {
            ProviderField::StormRelativeHelicity
        } else if i == 21 {
            ProviderField::StormMotionU
        } else if i == 22 {
            ProviderField::StormMotionV
        } else {
            ProviderField::WxSymbolCode
        }
    }

    /// The field at the place `i` of the order of the fields.
    pub fn at(i: usize) -> (f: ProviderField)
        requires
            i < FIELD_COUNT,
        ensures
            f == ProviderField::spec_at(i as int),
            f.rank() == i,
    {
        if i == 0 {
            ProviderField::Showalter
        } else if i == 1 {
            ProviderField::Swet
        } else if i == 2 {
            ProviderField::K
        } else if i == 3 {
            ProviderField::Li
        } else if i == 4 {
            ProviderField::Lcl
        } else if i == 5 {
            ProviderField::Pwat
        } else if i == 6 {
            ProviderField::TotalTotals
        } else if i == 7 {
            ProviderField::Cape
        } else if i == 8 {
            ProviderField::Cin
        } else if i == 9 {
            ProviderField::LclTemperature
        } else if i == 10 {
            ProviderField::EquilibriumLevel
        } else if i == 11 {
            ProviderField::Lfc
        } else if i == 12 {
            ProviderField::BulkRichardsonNumber
        } else if i == 13 {
            ProviderField::SkinTemperature
        } else if i == 14 {
            ProviderField::Layer1SoilTemp
        } else if i == 15 {
            ProviderField::SnowFall1Hour
        } else if i == 16 {
            ProviderField::Precipitation1Hr
        } else if i == 17 {
            ProviderField::ConvectivePrecip1Hr
        } else if i == 18 {
            ProviderField::Layer2SoilTemp
        } else if i == 19 {
            ProviderField::SnowRatio
        } else if i == 20 {
            ProviderField::StormRelativeHelicity
        } else if i == 21 {
            ProviderField::StormMotionU
        } else if i == 22 {
            ProviderField::StormMotionV
        } else {
            ProviderField::WxSymbolCode
        }
    }

    /// The place of the field in the order of the fields, which is its key in
    /// the map of the values.
    pub fn index(&self) -> (place: u64)
        ensures
            place == self.rank(),
            place < FIELD_COUNT,
            ProviderField::spec_at(place as int) == *self,
    {
        match self {
            ProviderField::Showalter => 0,
            ProviderField::Swet => 1,
            ProviderField::K => 2,
            ProviderField::Li => 3,
            ProviderField::Lcl => 4,
            ProviderField::Pwat => 5,
            ProviderField::TotalTotals => 6,
            ProviderField::Cape => 7,
            ProviderField::Cin => 8,
            ProviderField::LclTemperature => 9,
            ProviderField::EquilibriumLevel => 10,
            ProviderField::Lfc => 11,
            ProviderField::BulkRichardsonNumber => 12,
            ProviderField::SkinTemperature => 13,
            ProviderField::Layer1SoilTemp => 14,
            ProviderField::SnowFall1Hour => 15,
            ProviderField::Precipitation1Hr => 16,
            ProviderField::ConvectivePrecip1Hr => 17,
            ProviderField::Layer2SoilTemp => 18,
            ProviderField::SnowRatio => 19,
            ProviderField::StormRelativeHelicity => 20,
            ProviderField::StormMotionU => 21,
            ProviderField::StormMotionV => 22,
            ProviderField::WxSymbolCode => 23,
        }
    }

    /// The name that the field goes by.
    pub open spec fn spec_name(&self) -> Seq<char> {
        match self {
            ProviderField::Showalter => "Showalter"@,
            ProviderField::Swet => "SWeT"@,
            ProviderField::K => "K"@,
            ProviderField::Li => "LI"@,
            ProviderField::Lcl => "LCL"@,
            ProviderField::Pwat => "PWAT"@,
            ProviderField::TotalTotals => "TotalTotals"@,
            ProviderField::Cape => "CAPE"@,
            ProviderField::Cin => "CIN"@,
            ProviderField::LclTemperature => "LCLTemperature"@,
            ProviderField::EquilibriumLevel => "EquilibriumLevel"@,
            ProviderField::Lfc => "LFC"@,
            ProviderField::BulkRichardsonNumber => "BulkRichardsonNumber"@,
            ProviderField::SkinTemperature => "SkinTemperature"@,
            ProviderField::Layer1SoilTemp => "Layer1SoilTemp"@,
            ProviderField::SnowFall1Hour => "SnowFall1HourKgPerMeterSquared"@,
            ProviderField::Precipitation1Hr => "Precipitation1HrMm"@,
            ProviderField::ConvectivePrecip1Hr => "ConvectivePrecip1HrMm"@,
            ProviderField::Layer2SoilTemp => "Layer2SoilTemp"@,
            ProviderField::SnowRatio => "SnowRatio"@,
            ProviderField::StormRelativeHelicity => "StormRelativeHelicity"@,
            ProviderField::StormMotionU => "StormMotionUMps"@,
            ProviderField::StormMotionV => "StormMotionVMps"@,
            ProviderField::WxSymbolCode => "WxSymbolCode"@,
        }
    }

    /// The name that the field goes by, as a key for those who read the
    /// values by name.
    pub fn name(&self) -> (s: &'static str)
        ensures
            s@ == self.spec_name(),
    {
        match self {
            ProviderField::Showalter => "Showalter",
            ProviderField::Swet => "SWeT",
            ProviderField::K => "K",
            ProviderField::Li => "LI",
            ProviderField::Lcl => "LCL",
            ProviderField::Pwat => "PWAT",
            ProviderField::TotalTotals => "TotalTotals",
            ProviderField::Cape => "CAPE",
            ProviderField::Cin => "CIN",
            ProviderField::LclTemperature => "LCLTemperature",
            ProviderField::EquilibriumLevel => "EquilibriumLevel",
            ProviderField::Lfc => "LFC",
            ProviderField::BulkRichardsonNumber => "BulkRichardsonNumber",
            ProviderField::SkinTemperature => "SkinTemperature",
            ProviderField::Layer1SoilTemp => "Layer1SoilTemp",
            ProviderField::SnowFall1Hour => "SnowFall1HourKgPerMeterSquared",
            ProviderField::Precipitation1Hr => "Precipitation1HrMm",
            ProviderField::ConvectivePrecip1Hr => "ConvectivePrecip1HrMm",
            ProviderField::Layer2SoilTemp => "Layer2SoilTemp",
            ProviderField::SnowRatio => "SnowRatio",
            ProviderField::StormRelativeHelicity => "StormRelativeHelicity",
            ProviderField::StormMotionU => "StormMotionUMps",
            ProviderField::StormMotionV => "StormMotionVMps",
            ProviderField::WxSymbolCode => "WxSymbolCode",
        }
    }
}

/// A sounding in the shape that an analysis takes: the station, the times,
/// the profile, and the surface values that an analysis reads.
#[derive(Debug)]
pub struct Sounding {
    /// Where the data comes from: the name of the file.
    pub source_description: String,
    /// The station number, where it is known.
    pub station_num: Option<i32>,
    /// The station identifier.
    pub station_id: Option<Vec<u8>>,
    /// The latitude and the longitude, present where both are.
    pub coords: Option<(Decimal, Decimal)>,
    /// The elevation of the station, in meters.
    pub elevation: Option<Decimal>,
    /// The valid time.
    pub valid_time: ValidTime,
    /// The forecast lead time in hours, where it is known.
    pub lead_time: Option<i32>,
    /// The pressure of each level, in hPa.
    pub pressure: Vec<Option<Decimal>>,
    /// The temperature, in degrees Celsius.
    pub temperature: Vec<Option<Decimal>>,
    /// The wet bulb temperature, in degrees Celsius.
    pub wet_bulb: Vec<Option<Decimal>>,
    /// The dew point, in degrees Celsius.
    pub dew_point: Vec<Option<Decimal>>,
    /// The equivalent potential temperature, in K.
    pub theta_e: Vec<Option<Decimal>>,
    /// The wind: direction in degrees, speed in knots.
    pub wind: Vec<Option<WindSpdDir>>,
    /// The pressure vertical velocity, in Pa/s.
    pub omega: Vec<Option<Decimal>>,
    /// The height above mean sea level, in meters.
    pub height: Vec<Option<Decimal>>,
    /// The cloud fraction, in percent.
    pub cloud_fraction: Vec<Option<Decimal>>,
    /// The pressure reduced to mean sea level, in hPa.
    pub mslp: Option<Decimal>,
    /// The temperature two meters above ground, in degrees Celsius.
    pub sfc_temperature: Option<Decimal>,
    /// The dew point two meters above ground, in degrees Celsius.
    pub sfc_dew_point: Option<Decimal>,
    /// The pressure at the station, in hPa.
    pub station_pressure: Option<Decimal>,
    /// The low cloud cover, in percent.
    pub low_cloud: Option<Decimal>,
    /// The middle cloud cover, in percent.
    pub mid_cloud: Option<Decimal>,
    /// The high cloud cover, in percent.
    pub high_cloud: Option<Decimal>,
    /// The wind ten meters above ground, in meters per second.
    pub sfc_wind: Option<WindUV>,
}

/// The value of a `Sounding`.
pub struct SoundingView {
    pub source_description: Seq<char>,
    pub station_num: Option<i32>,
    pub station_id: Option<Seq<u8>>,
    pub coords: Option<(Decimal, Decimal)>,
    pub elevation: Option<Decimal>,
    pub valid_time: ValidTime,
    pub lead_time: Option<i32>,
    pub pressure: Seq<Option<Decimal>>,
    pub temperature: Seq<Option<Decimal>>,
    pub wet_bulb: Seq<Option<Decimal>>,
    pub dew_point: Seq<Option<Decimal>>,
    pub theta_e: Seq<Option<Decimal>>,
    pub wind: Seq<Option<WindSpdDir>>,
    pub omega: Seq<Option<Decimal>>,
    pub height: Seq<Option<Decimal>>,
    pub cloud_fraction: Seq<Option<Decimal>>,
    pub mslp: Option<Decimal>,
    pub sfc_temperature: Option<Decimal>,
    pub sfc_dew_point: Option<Decimal>,
    pub station_pressure: Option<Decimal>,
    pub low_cloud: Option<Decimal>,
    pub mid_cloud: Option<Decimal>,
    pub high_cloud: Option<Decimal>,
    pub sfc_wind: Option<WindUV>,
}

impl View for Sounding {
    type V = SoundingView;

    open spec fn view(&self) -> SoundingView {
        SoundingView {
            source_description: self.source_description@,
            station_num: self.station_num,
            station_id: match self.station_id {
                Some(v) => Some(v@),
                None => None,
            },
            coords: self.coords,
            elevation: self.elevation,
            valid_time: self.valid_time,
            lead_time: self.lead_time,
            pressure: self.pressure@,
            temperature: self.temperature@,
            wet_bulb: self.wet_bulb@,
            dew_point: self.dew_point@,
            theta_e: self.theta_e@,
            wind: self.wind@,
            omega: self.omega@,
            height: self.height@,
            cloud_fraction: self.cloud_fraction@,
            mslp: self.mslp,
            sfc_temperature: self.sfc_temperature,
            sfc_dew_point: self.sfc_dew_point,
            station_pressure: self.station_pressure,
            low_cloud: self.low_cloud,
            mid_cloud: self.mid_cloud,
            high_cloud: self.high_cloud,
            sfc_wind: self.sfc_wind,
        }
    }
}

/// An integer as a value that may be absent: absent where it is the integer
/// that stands for missing data.
pub open spec fn known_i32(v: i32) -> Option<i32> {
    if v == MISSING_I32 {
        None
    } else {
        Some(v)
    }
}

/// The latitude and the longitude as a pair, present where both are.
pub open spec fn spec_pair(lat: Option<Decimal>, lon: Option<Decimal>) -> Option<
    (Decimal, Decimal),
> {
    match (lat, lon) {
        (Some(lat), Some(lon)) => Some((lat, lon)),
        _ => None,
    }
}

/// The sounding that an upper-air record and a surface record make together.
pub open spec fn sounding_of(ua: UpperAirView, sd: SurfaceData, fname: Seq<char>) -> SoundingView {
    SoundingView {
        source_description: fname,
        station_num: known_i32(ua.station.num),
        station_id: ua.station.id,
        coords: spec_pair(ua.station.lat, ua.station.lon),
        elevation: ua.station.elevation,
        valid_time: ua.station.valid_time,
        lead_time: known_i32(ua.station.lead_time),
        pressure: ua.profile.pressure,
        temperature: ua.profile.temperature,
        wet_bulb: ua.profile.wet_bulb,
        dew_point: ua.profile.dew_point,
        theta_e: ua.profile.theta_e,
        wind: ua.profile.wind,
        omega: ua.profile.omega,
        height: ua.profile.height,
        cloud_fraction: ua.profile.cloud_fraction,
        mslp: sd.mslp,
        sfc_temperature: sd.temperature,
        sfc_dew_point: sd.dewpoint,
        station_pressure: sd.station_pres,
        low_cloud: sd.low_cloud,
        mid_cloud: sd.mid_cloud,
        high_cloud: sd.hi_cloud,
        sfc_wind: sd.wind,
    }
}

/// The number of the kind of precipitation that the surface record names by
/// its weather symbol, as a decimal.
pub open spec fn wx_symbol_value(sd: SurfaceData) -> Option<Decimal> {
    let code = match sd.wx_sym_cod {
        Some(d) => Some(d.spec_truncate_to_u8()),
        None => None,
    };
    match spec_derived_wx_code(code) {
        Some(kind) => Some(Decimal { mantissa: precip_code(kind) as i64, scale: 0 }),
        None => None,
    }
}

/// The value that the two records give for a field.
pub open spec fn field_value(field: ProviderField, ix: Indexes, sd: SurfaceData) -> Option<Decimal> {
    match field {
        ProviderField::Showalter => ix.show,
        ProviderField::Swet => ix.swet,
        ProviderField::K => ix.kinx,
        ProviderField::Li => ix.li,
        ProviderField::Lcl => ix.lclp,
        ProviderField::Pwat => ix.pwat,
        ProviderField::TotalTotals => ix.totl,
        ProviderField::Cape => ix.cape,
        ProviderField::Cin => ix.cins,
        ProviderField::LclTemperature => ix.lclt,
        ProviderField::EquilibriumLevel => ix.eqlv,
        ProviderField::Lfc => ix.lfc,
        ProviderField::BulkRichardsonNumber => ix.brch,
        ProviderField::SkinTemperature => sd.skin_temp,
        ProviderField::Layer1SoilTemp => sd.lyr_1_soil_temp,
        ProviderField::SnowFall1Hour => sd.snow_1hr,
        ProviderField::Precipitation1Hr => sd.p01,
        ProviderField::ConvectivePrecip1Hr => sd.c01,
        ProviderField::Layer2SoilTemp => sd.lyr_2_soil_temp,
        ProviderField::SnowRatio => sd.snow_ratio,
        ProviderField::StormRelativeHelicity => sd.srh,
        ProviderField::StormMotionU => match sd.storm_motion {
            Some(m) => Some(m.u),
            None => None,
        },
        ProviderField::StormMotionV => match sd.storm_motion {
            Some(m) => Some(m.v),
            None => None,
        },
        ProviderField::WxSymbolCode => wx_symbol_value(sd),
    }
}

/// The values beside the sounding that the two records give, as a map from
/// the place of a field to its value: a field has an entry exactly when the
/// records give it a value, and the entry holds that value.
pub open spec fn analysis_of(ix: Indexes, sd: SurfaceData) -> Map<u64, Decimal> {
    analysis_upto(ix, sd, FIELD_COUNT as int)
}

/// The entries of the fields at the places before `k`.
pub open spec fn analysis_upto(ix: Indexes, sd: SurfaceData, k: int) -> Map<u64, Decimal> {
    Map::new(
        |place: u64| place < k && field_value(ProviderField::spec_at(place as int), ix, sd) is Some,
        |place: u64| field_value(ProviderField::spec_at(place as int), ix, sd)->Some_0,
    )
}

/// Joins the latitude and the longitude, which make a pair where both are
/// present.
pub fn pair(lat: Option<Decimal>, lon: Option<Decimal>) -> (r: Option<(Decimal, Decimal)>)
    ensures
        r == spec_pair(lat, lon),
{
    match (lat, lon) {
        (Some(lat), Some(lon)) => Some((lat, lon)),
        _ => None,
    }
}

/// Works out the number of the kind of precipitation of a surface record.
fn wx_symbol(sd: &SurfaceData) -> (r: Option<Decimal>)
    ensures
        r == wx_symbol_value(*sd),
{
    let code: Option<u8> = match sd.wx_sym_cod {
        Some(d) => Some(d.truncate_to_u8()),
        None => None,
    };
    match derived_wx_code(code, sd.rain_type, sd.snow_type, sd.fzra_type, sd.ice_pellets_type) {
        Some(kind) => Some(Decimal::from_i32(precip_type_code(kind) as i32)),
        None => None,
    }
}

/// Reads the value of a field off the two records.
fn value_of(field: ProviderField, ua: &UpperAir, sd: &SurfaceData) -> (r: Option<Decimal>)
    ensures
        r == field_value(field, ua@.indexes, *sd),
{
    match field {
        ProviderField::Showalter => ua.show,
        ProviderField::Swet => ua.swet,
        ProviderField::K => ua.kinx,
        ProviderField::Li => ua.li,
        ProviderField::Lcl => ua.lclp,
        ProviderField::Pwat => ua.pwat,
        ProviderField::TotalTotals => ua.totl,
        ProviderField::Cape => ua.cape,
        ProviderField::Cin => ua.cins,
        ProviderField::LclTemperature => ua.lclt,
        ProviderField::EquilibriumLevel => ua.eqlv,
        ProviderField::Lfc => ua.lfc,
        ProviderField::BulkRichardsonNumber => ua.brch,
        ProviderField::SkinTemperature => sd.skin_temp,
        ProviderField::Layer1SoilTemp => sd.lyr_1_soil_temp,
        ProviderField::SnowFall1Hour => sd.snow_1hr,
        ProviderField::Precipitation1Hr => sd.p01,
        ProviderField::ConvectivePrecip1Hr => sd.c01,
        ProviderField::Layer2SoilTemp => sd.lyr_2_soil_temp,
        ProviderField::SnowRatio => sd.snow_ratio,
        ProviderField::StormRelativeHelicity => sd.srh,
        ProviderField::StormMotionU => match sd.storm_motion {
            Some(m) => Some(m.u),
            None => None,
        },
        ProviderField::StormMotionV => match sd.storm_motion {
            Some(m) => Some(m.v),
            None => None,
        },
        ProviderField::WxSymbolCode => wx_symbol(sd),
    }
}

/// Joins an upper-air record and a surface record into the sounding for
/// analysis, and maps the other values that the file gives for that time,
/// each under the place of its field (see `ProviderField::index`).
///
/// A station number or a lead time that is the missing value becomes absent;
/// the latitude and the longitude are given as a pair or not at all.
pub fn combine_data(ua: UpperAir, sd: SurfaceData, fname: &str) -> (r: (
    Sounding,
    HashMap<u64, Decimal>,
))
    ensures
        r.0@ == sounding_of(ua@, sd, fname@),
        r.1@ == analysis_of(ua@.indexes, sd),
{
    let ghost ix = ua@.indexes;
    let mut bufkit_anal: HashMap<u64, Decimal> = HashMap::new();
    let mut i: usize = 0;
    assert(bufkit_anal@ =~= analysis_upto(ix, sd, 0));
    while i < FIELD_COUNT
        invariant
            i <= FIELD_COUNT,
            ix == ua@.indexes,
            bufkit_anal@ == analysis_upto(ix, sd, i as int),
        decreases FIELD_COUNT - i,
    {
        broadcast use {
            vstd::std_specs::hash::axiom_u64_obeys_hash_table_key_model,
            vstd::std_specs::hash::axiom_random_state_builds_valid_hashers,
        };

        let field = ProviderField::at(i);
        match value_of(field, &ua, &sd) {
            Some(val) => {
                bufkit_anal.insert(i as u64, val);
            },
            None => {},
        }
        assert(bufkit_anal@ =~= analysis_upto(ix, sd, i + 1));
        i += 1;
    }
    let snd = Sounding {
        source_description: fname.to_owned(),
        station_num: check_missing_i32(ua.num),
        station_id: ua.id,
        coords: pair(ua.lat, ua.lon),
        elevation: ua.elevation,
        valid_time: ua.valid_time,
        lead_time: check_missing_i32(ua.lead_time),
        pressure: ua.pressure,
        temperature: ua.temperature,
        wet_bulb: ua.wet_bulb,
        dew_point: ua.dew_point,
        theta_e: ua.theta_e,
        wind: ua.wind,
        omega: ua.omega,
        height: ua.height,
        cloud_fraction: ua.cloud_fraction,
        mslp: sd.mslp,
        sfc_temperature: sd.temperature,
        sfc_dew_point: sd.dewpoint,
        station_pressure: sd.station_pres,
        low_cloud: sd.low_cloud,
        mid_cloud: sd.mid_cloud,
        high_cloud: sd.hi_cloud,
        sfc_wind: sd.wind,
    };
    (snd, bufkit_anal)
}

} // verus!
