//! The rows of the surface section.
use vstd::prelude::*;
use vstd::string::StringSliceAdditionalSpecFns;

use crate::error::{BufkitFileError, ErrorKind};
use crate::number::{decimal_of_token, i32_of_token, parse_i32_token, Decimal};
use crate::parse_util::{check_missing, parse_naive_date_time, spec_check_missing, time_of_token};
use crate::text::{bytes_equal, split_first_token, tokens};
use crate::valid_time::ValidTime;

verus! {

/// A vector by its eastward and its northward part.
#[derive(Debug, Clone, Copy, PartialEq, Eq, Structural)]
pub struct WindUV {
    /// The eastward part.
    pub u: Decimal,
    /// The northward part.
    pub v: Decimal,
}

/// The surface data of one valid time.
#[derive(Debug, Clone, Copy, PartialEq, Eq, Structural)]
pub struct SurfaceData {
    /// The station number.
    pub station_num: i32,
    /// The valid time, always taken as UTC.
    pub valid_time: ValidTime,
    /// The pressure reduced to mean sea level, in hPa.
    pub mslp: Option<Decimal>,
    /// The pressure at the station, in hPa.
    pub station_pres: Option<Decimal>,
    /// The low cloud cover, in percent.
    pub low_cloud: Option<Decimal>,
    /// The middle cloud cover, in percent.
    pub mid_cloud: Option<Decimal>,
    /// The high cloud cover, in percent.
    pub hi_cloud: Option<Decimal>,
    /// The wind ten meters above ground, in meters per second.
    pub wind: Option<WindUV>,
    /// The temperature two meters above ground, in degrees Celsius.
    pub temperature: Option<Decimal>,
    /// The dew point two meters above ground, in degrees Celsius.
    pub dewpoint: Option<Decimal>,
    /// The skin temperature, in degrees Celsius.
    pub skin_temp: Option<Decimal>,
    /// The temperature of the first soil layer, in K.
    pub lyr_1_soil_temp: Option<Decimal>,
    /// The snowfall of one hour, in kg per square meter.
    pub snow_1hr: Option<Decimal>,
    /// The total precipitation of one hour, in mm.
    pub p01: Option<Decimal>,
    /// The convective precipitation of one hour, in mm.
    pub c01: Option<Decimal>,
    /// The temperature of the second soil layer, in K.
    pub lyr_2_soil_temp: Option<Decimal>,
    /// The snow ratio, in percent.
    pub snow_ratio: Option<Decimal>,
    /// Whether the precipitation is snow.
    pub snow_type: Option<bool>,
    /// Whether the precipitation is ice pellets.
    pub ice_pellets_type: Option<bool>,
    /// Whether the precipitation is freezing rain.
    pub fzra_type: Option<bool>,
    /// Whether the precipitation is rain.
    pub rain_type: Option<bool>,
    /// The storm motion, in meters per second.
    pub storm_motion: Option<WindUV>,
    /// The storm relative helicity, in square meters per square second.
    pub srh: Option<Decimal>,
    /// The number of the weather type symbol.
    pub wx_sym_cod: Option<Decimal>,
}

/// The surface data before any column is read: no value is present, the
/// station number is the least integer and the valid time is the first minute
/// of the year 0.
pub open spec fn empty_surface_data() -> SurfaceData {
    SurfaceData {
        station_num: i32::MIN,
        valid_time: ValidTime { year: 0, month: 1, day: 1, hour: 0, minute: 0 },
        mslp: None,
        station_pres: None,
        low_cloud: None,
        mid_cloud: None,
        hi_cloud: None,
        wind: None,
        temperature: None,
        dewpoint: None,
        skin_temp: None,
        lyr_1_soil_temp: None,
        snow_1hr: None,
        p01: None,
        c01: None,
        lyr_2_soil_temp: None,
        snow_ratio: None,
        snow_type: None,
        ice_pellets_type: None,
        fzra_type: None,
        rain_type: None,
        storm_motion: None,
        srh: None,
        wx_sym_cod: None,
    }
}

impl Default for SurfaceData {
    fn default() -> (sd: SurfaceData)
        ensures
            sd == empty_surface_data(),
    {
        SurfaceData {
            station_num: i32::MIN,
            valid_time: ValidTime { year: 0, month: 1, day: 1, hour: 0, minute: 0 },
            mslp: None,
            station_pres: None,
            low_cloud: None,
            mid_cloud: None,
            hi_cloud: None,
            wind: None,
            temperature: None,
            dewpoint: None,
            skin_temp: None,
            lyr_1_soil_temp: None,
            snow_1hr: None,
            p01: None,
            c01: None,
            lyr_2_soil_temp: None,
            snow_ratio: None,
            snow_type: None,
            ice_pellets_type: None,
            fzra_type: None,
            rain_type: None,
            storm_motion: None,
            srh: None,
            wx_sym_cod: None,
        }
    }
}

/// The columns of the surface table that are read. `NONE` stands for a column
/// that is passed over.
#[derive(Debug, Clone, Copy, PartialEq, Eq, Structural)]
pub enum SfcColName {
    NONE,
    STN,
    VALIDTIME,
    PMSL,
    PRES,
    LCLD,
    MCLD,
    HCLD,
    UWND,
    VWND,
    T2MS,
    TD2M,
    SKTC,
    STC1,
    SNFL,
    P01M,
    C01M,
    STC2,
    SNRA,
    WXTS,
    WXTP,
    WXTZ,
    WXTR,
    USTM,
    VSTM,
    HLCY,
    WSYM,
}

/// The layout of the surface table: the names of its columns, in order.
#[derive(Debug)]
pub struct SfcColumns {
    /// The column names.
    pub names: Vec<SfcColName>,
}

impl SfcColumns {
    /// Gets the number of columns.
    pub fn num_cols(&self) -> (n: usize)
        ensures
            n == self.names@.len(),
    {
        self.names.len()
    }
}

/// The column that a header token names; an unknown token names a column
/// that is passed over.
pub open spec fn sfc_col_name_of(tok: Seq<u8>) -> SfcColName {
    if tok == "STN".spec_bytes() {
        SfcColName::STN
    } else if tok == "YYMMDD/HHMM".spec_bytes() {
        SfcColName::VALIDTIME
    } else if tok == "PMSL".spec_bytes() {
        SfcColName::PMSL
    } else if tok == "PRES".spec_bytes() {
        SfcColName::PRES
    } else if tok == "LCLD".spec_bytes() {
        SfcColName::LCLD
    } else if tok == "MCLD".spec_bytes() {
        SfcColName::MCLD
    } else if tok == "HCLD".spec_bytes() {
        SfcColName::HCLD
    } else if tok == "UWND".spec_bytes() {
        SfcColName::UWND
    } else if tok == "VWND".spec_bytes() {
        SfcColName::VWND
    } else if tok == "T2MS".spec_bytes() {
        SfcColName::T2MS
    } else if tok == "TD2M".spec_bytes() {
        SfcColName::TD2M
    } else if tok == "SKTC".spec_bytes() {
        SfcColName::SKTC
    } else if tok == "STC1".spec_bytes() {
        SfcColName::STC1
    } else if tok == "SNFL".spec_bytes() {
        SfcColName::SNFL
    } else if tok == "P01M".spec_bytes() {
        SfcColName::P01M
    } else if tok == "C01M".spec_bytes() {
        SfcColName::C01M
    } else if tok == "STC2".spec_bytes() {
        SfcColName::STC2
    } else if tok == "SNRA".spec_bytes() {
        SfcColName::SNRA
    } else if tok == "WXTS".spec_bytes() {
        SfcColName::WXTS
    } else if tok == "WXTP".spec_bytes() {
        SfcColName::WXTP
    } else if tok == "WXTZ".spec_bytes() {
        SfcColName::WXTZ
    } else if tok == "WXTR".spec_bytes() {
        SfcColName::WXTR
    } else if tok == "USTM".spec_bytes() {
        SfcColName::USTM
    } else if tok == "VSTM".spec_bytes() {
        SfcColName::VSTM
    } else if tok == "HLCY".spec_bytes() {
        SfcColName::HLCY
    } else if tok == "WSYM".spec_bytes() {
        SfcColName::WSYM
    } else {
        SfcColName::NONE
    }
}

/// The names of the columns that the header tokens give.
pub open spec fn sfc_names_of(toks: Seq<Seq<u8>>) -> Seq<SfcColName> {
    Seq::new(toks.len(), |i: int| sfc_col_name_of(toks[i]))
}

/// The layout that the header text gives. A layout must have the station
/// number and the valid time.
pub open spec fn sfc_layout_of(header: Seq<u8>) -> Result<Seq<SfcColName>, ErrorKind> {
    let names = sfc_names_of(tokens(header));
    if names.contains(SfcColName::STN) && names.contains(SfcColName::VALIDTIME) {
        Ok(names)
    } else {
        Err(ErrorKind::MissingRequiredColumn)
    }
}

/// A row while its columns are read: the data so far, and the parts of the
/// two vectors, which are joined at the end.
#[derive(Debug, Clone, Copy, PartialEq, Eq, Structural)]
pub struct RowState {
    pub sd: SurfaceData,
    pub u_wind: Option<Decimal>,
    pub v_wind: Option<Decimal>,
    pub u_storm: Option<Decimal>,
    pub v_storm: Option<Decimal>,
}

/// A row before any column is read.
pub open spec fn empty_row() -> RowState {
    RowState {
        sd: empty_surface_data(),
        u_wind: None,
        v_wind: None,
        u_storm: None,
        v_storm: None,
    }
}

/// The value of a decimal column: the decimal that the token writes, absent
/// where it is the missing value. A token that is no decimal fails the row.
pub open spec fn decimal_field(tok: Seq<u8>) -> Result<Option<Decimal>, ErrorKind> {
    match decimal_of_token(tok) {
        Some(d) => Ok(spec_check_missing(d)),
        None => Err(ErrorKind::RowDecodeError),
    }
}

/// The value of a flag column: whether the decimal is greater than one half.
pub open spec fn flag_field(tok: Seq<u8>) -> Result<Option<bool>, ErrorKind> {
    match decimal_field(tok) {
        Ok(Some(d)) => Ok(Some(d.spec_exceeds_half())),
        Ok(None) => Ok(None),
        Err(kind) => Err(kind),
    }
}

/// The row `st` after the token `tok` is read into the column `name`.
pub open spec fn apply_column(st: RowState, name: SfcColName, tok: Seq<u8>) -> Result<
    RowState,
    ErrorKind,
> {
    match name {
        SfcColName::NONE => match decimal_field(tok) {
            Ok(_) => Ok(st),
            Err(kind) => Err(kind),
        },
        SfcColName::STN => match i32_of_token(tok) {
            Some(v) => Ok(RowState { sd: SurfaceData { station_num: v, ..st.sd }, ..st }),
            None => Err(ErrorKind::RowDecodeError),
        },
        SfcColName::VALIDTIME => match time_of_token(tok) {
            Some(vt) => Ok(RowState { sd: SurfaceData { valid_time: vt, ..st.sd }, ..st }),
            None => Err(ErrorKind::RowDecodeError),
        },
        SfcColName::PMSL => match decimal_field(tok) {
            Ok(v) => Ok(RowState { sd: SurfaceData { mslp: v, ..st.sd }, ..st }),
            Err(kind) => Err(kind),
        },
        SfcColName::PRES => match decimal_field(tok) {
            Ok(v) => Ok(RowState { sd: SurfaceData { station_pres: v, ..st.sd }, ..st }),
            Err(kind) => Err(kind),
        },
        SfcColName::LCLD => match decimal_field(tok) {
            Ok(v) => Ok(RowState { sd: SurfaceData { low_cloud: v, ..st.sd }, ..st }),
            Err(kind) => Err(kind),
        },
        SfcColName::MCLD => match decimal_field(tok) {
            Ok(v) => Ok(RowState { sd: SurfaceData { mid_cloud: v, ..st.sd }, ..st }),
            Err(kind) => Err(kind),
        },
        SfcColName::HCLD => match decimal_field(tok) {
            Ok(v) => Ok(RowState { sd: SurfaceData { hi_cloud: v, ..st.sd }, ..st }),
            Err(kind) => Err(kind),
        },
        SfcColName::T2MS => match decimal_field(tok) {
            Ok(v) => Ok(RowState { sd: SurfaceData { temperature: v, ..st.sd }, ..st }),
            Err(kind) => Err(kind),
        },
        SfcColName::TD2M => match decimal_field(tok) {
            Ok(v) => Ok(RowState { sd: SurfaceData { dewpoint: v, ..st.sd }, ..st }),
            Err(kind) => Err(kind),
        },
        SfcColName::SKTC => match decimal_field(tok) {
            Ok(v) => Ok(RowState { sd: SurfaceData { skin_temp: v, ..st.sd }, ..st }),
            Err(kind) => Err(kind),
        },
        SfcColName::STC1 => match decimal_field(tok) {
            Ok(v) => Ok(RowState { sd: SurfaceData { lyr_1_soil_temp: v, ..st.sd }, ..st }),
            Err(kind) => Err(kind),
        },
        SfcColName::SNFL => match decimal_field(tok) {
            Ok(v) => Ok(RowState { sd: SurfaceData { snow_1hr: v, ..st.sd }, ..st }),
            Err(kind) => Err(kind),
        },
        SfcColName::P01M => match decimal_field(tok) {
            Ok(v) => Ok(RowState { sd: SurfaceData { p01: v, ..st.sd }, ..st }),
            Err(kind) => Err(kind),
        },
        SfcColName::C01M => match decimal_field(tok) {
            Ok(v) => Ok(RowState { sd: SurfaceData { c01: v, ..st.sd }, ..st }),
            Err(kind) => Err(kind),
        },
        SfcColName::STC2 => match decimal_field(tok) {
            Ok(v) => Ok(RowState { sd: SurfaceData { lyr_2_soil_temp: v, ..st.sd }, ..st }),
            Err(kind) => Err(kind),
        },
        SfcColName::SNRA => match decimal_field(tok) {
            Ok(v) => Ok(RowState { sd: SurfaceData { snow_ratio: v, ..st.sd }, ..st }),
            Err(kind) => Err(kind),
        },
        SfcColName::HLCY => match decimal_field(tok) {
            Ok(v) => Ok(RowState { sd: SurfaceData { srh: v, ..st.sd }, ..st }),
            Err(kind) => Err(kind),
        },
        SfcColName::WXTS => match flag_field(tok) {
            Ok(v) => Ok(RowState { sd: SurfaceData { snow_type: v, ..st.sd }, ..st }),
            Err(kind) => Err(kind),
        },
        SfcColName::WXTP => match flag_field(tok) {
            Ok(v) => Ok(RowState { sd: SurfaceData { ice_pellets_type: v, ..st.sd }, ..st }),
            Err(kind) => Err(kind),
        },
        SfcColName::WXTZ => match flag_field(tok) {
            Ok(v) => Ok(RowState { sd: SurfaceData { fzra_type: v, ..st.sd }, ..st }),
            Err(kind) => Err(kind),
        },
        SfcColName::WXTR => match flag_field(tok) {
            Ok(v) => Ok(RowState { sd: SurfaceData { rain_type: v, ..st.sd }, ..st }),
            Err(kind) => Err(kind),
        },
        SfcColName::UWND => match decimal_field(tok) {
            Ok(v) => Ok(RowState { u_wind: v, ..st }),
            Err(kind) => Err(kind),
        },
        SfcColName::VWND => match decimal_field(tok) {
            Ok(v) => Ok(RowState { v_wind: v, ..st }),
            Err(kind) => Err(kind),
        },
        SfcColName::USTM => match decimal_field(tok) {
            Ok(v) => Ok(RowState { u_storm: v, ..st }),
            Err(kind) => Err(kind),
        },
        SfcColName::VSTM => match decimal_field(tok) {
            Ok(v) => Ok(RowState { v_storm: v, ..st }),
            Err(kind) => Err(kind),
        },
        SfcColName::WSYM => match decimal_field(tok) {
            Ok(v) => Ok(RowState { sd: SurfaceData { wx_sym_cod: v, ..st.sd }, ..st }),
            Err(kind) => Err(kind),
        },
    }
}

/// The row after the first `k` columns of the layout are read from the
/// tokens, one token for each column. A row with fewer tokens than columns
/// fails.
pub open spec fn row_fold(toks: Seq<Seq<u8>>, names: Seq<SfcColName>, k: int) -> Result<
    RowState,
    ErrorKind,
>
    decreases k,
{
    if k <= 0 {
        Ok(empty_row())
    } else {
        match row_fold(toks, names, k - 1) {
            Err(kind) => Err(kind),
            Ok(st) => if k - 1 >= toks.len() {
                Err(ErrorKind::RowDecodeError)
            } else {
                apply_column(st, names[k - 1], toks[k - 1])
            },
        }
    }
}

/// The vector with the parts `u` and `v`, present where both are.
pub open spec fn spec_join(u: Option<Decimal>, v: Option<Decimal>) -> Option<WindUV> {
    match (u, v) {
        (Some(u), Some(v)) => Some(WindUV { u, v }),
        _ => None,
    }
}

/// The surface data of a row that is read to its end.
pub open spec fn finish_row(st: RowState) -> SurfaceData {
    SurfaceData {
        wind: spec_join(st.u_wind, st.v_wind),
        storm_motion: spec_join(st.u_storm, st.v_storm),
        ..st.sd
    }
}

/// The surface data that the row text `text` gives under the layout `names`.
pub open spec fn surface_row_of(text: Seq<u8>, names: Seq<SfcColName>) -> Result<
    SurfaceData,
    ErrorKind,
> {
    match row_fold(tokens(text), names, names.len() as int) {
        Ok(st) => Ok(finish_row(st)),
        Err(kind) => Err(kind),
    }
}

/// Once a column has failed, the columns after it change nothing.
pub proof fn lemma_row_error_sticks(toks: Seq<Seq<u8>>, names: Seq<SfcColName>, k: int, n: int)
    requires
        0 <= k <= n,
        row_fold(toks, names, k) is Err,
    ensures
        row_fold(toks, names, n) == row_fold(toks, names, k),
    decreases n - k,
{
    if k < n {
        lemma_row_error_sticks(toks, names, k, n - 1);
    }
}

/// Reads the column that a header token names.
fn read_sfc_col_name(tok: &[u8]) -> (r: SfcColName)
    ensures
        r == sfc_col_name_of(tok@),
{
    if bytes_equal(tok, "STN".as_bytes()) {
        SfcColName::STN
    } else if bytes_equal(tok, "YYMMDD/HHMM".as_bytes()) {
        SfcColName::VALIDTIME
    } else if bytes_equal(tok, "PMSL".as_bytes()) {
        SfcColName::PMSL
    } else if bytes_equal(tok, "PRES".as_bytes()) {
        SfcColName::PRES
    } else if bytes_equal(tok, "LCLD".as_bytes()) {
        SfcColName::LCLD
    } else if bytes_equal(tok, "MCLD".as_bytes()) {
        SfcColName::MCLD
    } else if bytes_equal(tok, "HCLD".as_bytes()) {
        SfcColName::HCLD
    } else if bytes_equal(tok, "UWND".as_bytes()) {
        SfcColName::UWND
    } else if bytes_equal(tok, "VWND".as_bytes()) {
        SfcColName::VWND
    } else if bytes_equal(tok, "T2MS".as_bytes()) {
        SfcColName::T2MS
    } else if bytes_equal(tok, "TD2M".as_bytes()) {
        SfcColName::TD2M
    } else if bytes_equal(tok, "SKTC".as_bytes()) {
        SfcColName::SKTC
    } else if bytes_equal(tok, "STC1".as_bytes()) {
        SfcColName::STC1
    } else if bytes_equal(tok, "SNFL".as_bytes()) {
        SfcColName::SNFL
    } else if bytes_equal(tok, "P01M".as_bytes()) {
        SfcColName::P01M
    } else if bytes_equal(tok, "C01M".as_bytes()) {
        SfcColName::C01M
    } else if bytes_equal(tok, "STC2".as_bytes()) {
        SfcColName::STC2
    } else if bytes_equal(tok, "SNRA".as_bytes()) {
        SfcColName::SNRA
    } else if bytes_equal(tok, "WXTS".as_bytes()) {
        SfcColName::WXTS
    } else if bytes_equal(tok, "WXTP".as_bytes()) {
        SfcColName::WXTP
    } else if bytes_equal(tok, "WXTZ".as_bytes()) {
        SfcColName::WXTZ
    } else if bytes_equal(tok, "WXTR".as_bytes()) {
        SfcColName::WXTR
    } else if bytes_equal(tok, "USTM".as_bytes()) {
        SfcColName::USTM
    } else if bytes_equal(tok, "VSTM".as_bytes()) {
        SfcColName::VSTM
    } else if bytes_equal(tok, "HLCY".as_bytes()) {
        SfcColName::HLCY
    } else if bytes_equal(tok, "WSYM".as_bytes()) {
        SfcColName::WSYM
    } else {
        SfcColName::NONE
    }
}

/// Reads a decimal column.
fn read_decimal_field(tok: &[u8]) -> (r: Result<Option<Decimal>, BufkitFileError>)
    ensures
        match decimal_field(tok@) {
            Ok(v) => r == Ok::<Option<Decimal>, BufkitFileError>(v) && (v is Some ==> v->0.wf()),
            Err(kind) => r is Err && r->Err_0.kind == kind,
        },
{
    match Decimal::parse(tok) {
        Some(d) => Ok(check_missing(d)),
        None => Err(BufkitFileError::new(ErrorKind::RowDecodeError)),
    }
}

/// Reads a flag column.
fn read_flag_field(tok: &[u8]) -> (r: Result<Option<bool>, BufkitFileError>)
    ensures
        match flag_field(tok@) {
            Ok(v) => r == Ok::<Option<bool>, BufkitFileError>(v),
            Err(kind) => r is Err && r->Err_0.kind == kind,
        },
{
    match read_decimal_field(tok) {
        Ok(Some(d)) => Ok(Some(d.exceeds_half())),
        Ok(None) => Ok(None),
        Err(e) => Err(e),
    }
}

/// Joins the two parts of a vector, which is present where both are.
pub fn join(u: Option<Decimal>, v: Option<Decimal>) -> (r: Option<WindUV>)
    ensures
        r == spec_join(u, v),
{
    match (u, v) {
        (Some(u), Some(v)) => Some(WindUV { u, v }),
        _ => None,
    }
}

/// Reads one token into the column `name` of the row `st`.
pub fn read_column(st: RowState, name: SfcColName, tok: &[u8]) -> (r: Result<
    RowState,
    BufkitFileError,
>)
    ensures
        match apply_column(st, name, tok@) {
            Ok(next) => r == Ok::<RowState, BufkitFileError>(next),
            Err(kind) => r is Err && r->Err_0.kind == kind,
        },
{
    match name {
        SfcColName::NONE => match read_decimal_field(tok) {
            Ok(_) => Ok(st),
            Err(e) => Err(e),
        },
        SfcColName::STN => match parse_i32_token(tok) {
            Some(v) => Ok(RowState { sd: SurfaceData { station_num: v, ..st.sd }, ..st }),
            None => Err(BufkitFileError::new(ErrorKind::RowDecodeError)),
        },
        SfcColName::VALIDTIME => match parse_naive_date_time(tok) {
            Ok(vt) => Ok(RowState { sd: SurfaceData { valid_time: vt, ..st.sd }, ..st }),
            Err(_) => Err(BufkitFileError::new(ErrorKind::RowDecodeError)),
        },
        SfcColName::PMSL => match read_decimal_field(tok) {
            Ok(v) => Ok(RowState { sd: SurfaceData { mslp: v, ..st.sd }, ..st }),
            Err(e) => Err(e),
        },
        SfcColName::PRES => match read_decimal_field(tok) {
            Ok(v) => Ok(RowState { sd: SurfaceData { station_pres: v, ..st.sd }, ..st }),
            Err(e) => Err(e),
        },
        SfcColName::LCLD => match read_decimal_field(tok) {
            Ok(v) => Ok(RowState { sd: SurfaceData { low_cloud: v, ..st.sd }, ..st }),
            Err(e) => Err(e),
        },
        SfcColName::MCLD => match read_decimal_field(tok) {
            Ok(v) => Ok(RowState { sd: SurfaceData { mid_cloud: v, ..st.sd }, ..st }),
            Err(e) => Err(e),
        },
        SfcColName::HCLD => match read_decimal_field(tok) {
            Ok(v) => Ok(RowState { sd: SurfaceData { hi_cloud: v, ..st.sd }, ..st }),
            Err(e) => Err(e),
        },
        SfcColName::T2MS => match read_decimal_field(tok) {
            Ok(v) => Ok(RowState { sd: SurfaceData { temperature: v, ..st.sd }, ..st }),
            Err(e) => Err(e),
        },
        SfcColName::TD2M => match read_decimal_field(tok) {
            Ok(v) => Ok(RowState { sd: SurfaceData { dewpoint: v, ..st.sd }, ..st }),
            Err(e) => Err(e),
        },
        SfcColName::SKTC => match read_decimal_field(tok) {
            Ok(v) => Ok(RowState { sd: SurfaceData { skin_temp: v, ..st.sd }, ..st }),
            Err(e) => Err(e),
        },
        SfcColName::STC1 => match read_decimal_field(tok) {
            Ok(v) => Ok(RowState { sd: SurfaceData { lyr_1_soil_temp: v, ..st.sd }, ..st }),
            Err(e) => Err(e),
        },
        SfcColName::SNFL => match read_decimal_field(tok) {
            Ok(v) => Ok(RowState { sd: SurfaceData { snow_1hr: v, ..st.sd }, ..st }),
            Err(e) => Err(e),
        },
        SfcColName::P01M => match read_decimal_field(tok) {
            Ok(v) => Ok(RowState { sd: SurfaceData { p01: v, ..st.sd }, ..st }),
            Err(e) => Err(e),
        },
        SfcColName::C01M => match read_decimal_field(tok) {
            Ok(v) => Ok(RowState { sd: SurfaceData { c01: v, ..st.sd }, ..st }),
            Err(e) => Err(e),
        },
        SfcColName::STC2 => match read_decimal_field(tok) {
            Ok(v) => Ok(RowState { sd: SurfaceData { lyr_2_soil_temp: v, ..st.sd }, ..st }),
            Err(e) => Err(e),
        },
        SfcColName::SNRA => match read_decimal_field(tok) {
            Ok(v) => Ok(RowState { sd: SurfaceData { snow_ratio: v, ..st.sd }, ..st }),
            Err(e) => Err(e),
        },
        SfcColName::HLCY => match read_decimal_field(tok) {
            Ok(v) => Ok(RowState { sd: SurfaceData { srh: v, ..st.sd }, ..st }),
            Err(e) => Err(e),
        },
        SfcColName::WXTS => match read_flag_field(tok) {
            Ok(v) => Ok(RowState { sd: SurfaceData { snow_type: v, ..st.sd }, ..st }),
            Err(e) => Err(e),
        },
        SfcColName::WXTP => match read_flag_field(tok) {
            Ok(v) => Ok(RowState { sd: SurfaceData { ice_pellets_type: v, ..st.sd }, ..st }),
            Err(e) => Err(e),
        },
        SfcColName::WXTZ => match read_flag_field(tok) {
            Ok(v) => Ok(RowState { sd: SurfaceData { fzra_type: v, ..st.sd }, ..st }),
            Err(e) => Err(e),
        },
        SfcColName::WXTR => match read_flag_field(tok) {
            Ok(v) => Ok(RowState { sd: SurfaceData { rain_type: v, ..st.sd }, ..st }),
            Err(e) => Err(e),
        },
        SfcColName::UWND => match read_decimal_field(tok) {
            Ok(v) => Ok(RowState { u_wind: v, ..st }),
            Err(e) => Err(e),
        },
        SfcColName::VWND => match read_decimal_field(tok) {
            Ok(v) => Ok(RowState { v_wind: v, ..st }),
            Err(e) => Err(e),
        },
        SfcColName::USTM => match read_decimal_field(tok) {
            Ok(v) => Ok(RowState { u_storm: v, ..st }),
            Err(e) => Err(e),
        },
        SfcColName::VSTM => match read_decimal_field(tok) {
            Ok(v) => Ok(RowState { v_storm: v, ..st }),
            Err(e) => Err(e),
        },
        SfcColName::WSYM => match read_decimal_field(tok) {
            Ok(v) => Ok(RowState { sd: SurfaceData { wx_sym_cod: v, ..st.sd }, ..st }),
            Err(e) => Err(e),
        },
    }
}

impl SurfaceData {
    /// Reads the layout of the surface table from its header.
    ///
    /// Every token of the header is a column; a token that is not known is a
    /// column to pass over. Without the station number or the valid time the
    /// header fails with `MissingRequiredColumn`.
    pub fn parse_columns(header: &[u8]) -> (r: Result<SfcColumns, BufkitFileError>)
        ensures
            match sfc_layout_of(header@) {
                Ok(names) => r is Ok && r->Ok_0.names@ == names,
                Err(kind) => r is Err && r->Err_0.kind == kind,
            },
    {
        let mut names: Vec<SfcColName> = Vec::new();
        let mut has_station: bool = false;
        let mut has_time: bool = false;
        let mut rest: &[u8] = header;
        let ghost all = tokens(header@);
        let ghost mut seen: Seq<Seq<u8>> = Seq::empty();
        assert(seen + tokens(rest@) =~= all);
        loop
            invariant
                all == tokens(header@),
                all == seen + tokens(rest@),
                names@ == sfc_names_of(seen),
                has_station == names@.contains(SfcColName::STN),
                has_time == names@.contains(SfcColName::VALIDTIME),
            ensures
                all == seen,
            decreases rest@.len(),
        {
            let (tok, after) = match split_first_token(rest) {
                None => {
                    assert(all =~= seen);
                    break ;
                },
                Some(parts) => parts,
            };
            let name = read_sfc_col_name(tok);
            let ghost before = names@;
            names.push(name);
            proof {
                assert(tokens(rest@) == seq![tok@] + tokens(after@));
                assert(seen.push(tok@) + tokens(after@) =~= all);
                assert(names@ =~= sfc_names_of(seen.push(tok@)));
                seen = seen.push(tok@);
                assert(names@ == before.push(name));
                assert(names@[before.len() as int] == name);
                assert forall|v: SfcColName| names@.contains(v) <==> (before.contains(v) || v
                    == name) by {
                    if before.contains(v) {
                        let j = choose|j: int| 0 <= j < before.len() && before[j] == v;
                        assert(names@[j] == v);
                    }
                }
            }
            if name == SfcColName::STN {
                has_station = true;
            }
            if name == SfcColName::VALIDTIME {
                has_time = true;
            }
            rest = after;
        }
        if has_station && has_time {
            Ok(SfcColumns { names })
        } else {
            Err(BufkitFileError::new(ErrorKind::MissingRequiredColumn))
        }
    }

    /// Reads one row of the surface table under the layout `cols`.
    ///
    /// The row gives one token to each column, in order. A token that is not
    /// of the type of its column, or a row with too few tokens, fails the row
    /// with `RowDecodeError`. Tokens after the last column are not read.
    pub fn parse_values(tokens: &[u8], cols: &SfcColumns) -> (r: Result<
        SurfaceData,
        BufkitFileError,
    >)
        ensures
            match surface_row_of(tokens@, cols.names@) {
                Ok(sd) => r == Ok::<SurfaceData, BufkitFileError>(sd),
                Err(kind) => r is Err && r->Err_0.kind == kind,
            },
    {
        let n: usize = cols.num_cols();
        let mut st = RowState {
            sd: SurfaceData::default(),
            u_wind: None,
            v_wind: None,
            u_storm: None,
            v_storm: None,
        };
        let mut rest: &[u8] = tokens;
        let ghost all = crate::text::tokens(tokens@);
        let ghost mut seen: Seq<Seq<u8>> = Seq::empty();
        assert(seen + crate::text::tokens(rest@) =~= all);
        let mut i: usize = 0;
        while i < n
            invariant
                i <= n,
                n == cols.names@.len(),
                all == crate::text::tokens(tokens@),
                all == seen + crate::text::tokens(rest@),
                i == seen.len(),
                row_fold(all, cols.names@, i as int) == Ok::<RowState, ErrorKind>(st),
            decreases n - i,
        {
            let (tok, after) = match split_first_token(rest) {
                None => {
                    proof {
                        assert(all =~= seen);
                        lemma_row_error_sticks(all, cols.names@, i + 1, n as int);
                    }
                    return Err(BufkitFileError::new(ErrorKind::RowDecodeError));
                },
                Some(parts) => parts,
            };
            proof {
                assert(crate::text::tokens(rest@) == seq![tok@] + crate::text::tokens(after@));
                assert(seen.push(tok@) + crate::text::tokens(after@) =~= all);
                assert(all[i as int] == tok@);
            }
            st = match read_column(st, cols.names[i], tok) {
                Ok(next) => next,
                Err(e) => {
                    proof {
                        lemma_row_error_sticks(all, cols.names@, i + 1, n as int);
                    }
                    return Err(e);
                },
            };
            proof {
                seen = seen.push(tok@);
            }
            rest = after;
            i += 1;
        }
        let mut sd = st.sd;
        sd.wind = join(st.u_wind, st.v_wind);
        sd.storm_motion = join(st.u_storm, st.v_storm);
        Ok(sd)
    }
}

} // verus!
