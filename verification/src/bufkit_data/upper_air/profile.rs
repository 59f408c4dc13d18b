//! The profile table of an upper-air record: the variables against height.
use vstd::prelude::*;
use vstd::string::StringSliceAdditionalSpecFns;

use crate::error::{BufkitFileError, ErrorKind};
use crate::number::{decimal_of_token, Decimal, MINUS};
use crate::parse_util::{check_missing, spec_check_missing};
use crate::text::{
    bytes_equal, first_from, is_digit, lemma_first_from_is, split_first_token, tokens,
};

verus! {

/// The columns that a profile table can have. `NONE` marks a place of the
/// layout that holds no column.
#[derive(Debug, Clone, Copy, PartialEq, Eq, Structural)]
pub enum ColName {
    NONE,
    PRES,
    TMPC,
    TMWC,
    DWPC,
    THTE,
    DRCT,
    SKNT,
    OMEG,
    CFRL,
    HGHT,
}

impl Default for ColName {
    fn default() -> (c: ColName)
        ensures
            c == ColName::NONE,
    {
        ColName::NONE
    }
}

/// The layout of a profile table: the names of its columns in the order of
/// the header, then `NONE` up to the end.
#[derive(Debug)]
pub struct ProfileColIndexes {
    /// The column names.
    pub names: [ColName; 10],
}

impl Default for ProfileColIndexes {
    fn default() -> (cols: ProfileColIndexes)
        ensures
            forall|i: int| 0 <= i < 10 ==> #[trigger] cols.names@[i] == ColName::NONE,
    {
        ProfileColIndexes { names: [ColName::NONE; 10] }
    }
}

/// How many of the first `upto` names are columns.
pub open spec fn count_cols(names: Seq<ColName>, upto: int) -> nat
    decreases upto,
{
    if upto <= 0 {
        0
    } else {
        count_cols(names, upto - 1) + if names[upto - 1] != ColName::NONE {
            1nat
        } else {
            0nat
        }
    }
}

impl ProfileColIndexes {
    /// The number of columns: the names other than `NONE`.
    pub open spec fn spec_num_cols(&self) -> nat {
        count_cols(self.names@, 10)
    }

    /// Gets the number of columns, that is of names other than `NONE`.
    pub fn num_cols(&self) -> (n: usize)
        ensures
            n == self.spec_num_cols(),
            n <= 10,
    {
        let mut ncols: usize = 0;
        let mut i: usize = 0;
        while i < 10
            invariant
                i <= 10,
                ncols == count_cols(self.names@, i as int),
                ncols <= i,
            decreases 10 - i,
        {
            if self.names[i] != ColName::NONE {
                ncols += 1;
            }
            i += 1;
        }
        ncols
    }
}

/// A wind as the table gives it.
#[derive(Debug, Clone, Copy, PartialEq, Eq, Structural)]
pub struct WindSpdDir {
    /// The direction that the wind blows from, in degrees.
    pub direction: Decimal,
    /// The speed, in knots.
    pub speed: Decimal,
}

/// The columns of a profile table, one entry for each level. A column that
/// the table does not have is empty.
#[derive(Debug)]
pub struct Profile {
    /// The pressure, in hPa.
    pub pressure: Vec<Option<Decimal>>,
    /// The temperature, in degrees Celsius.
    pub temperature: Vec<Option<Decimal>>,
    /// The wet bulb temperature, in degrees Celsius.
    pub wet_bulb: Vec<Option<Decimal>>,
    /// The dew point, in degrees Celsius.
    pub dew_point: Vec<Option<Decimal>>,
    /// The equivalent potential temperature, in K.
    pub theta_e: Vec<Option<Decimal>>,
    /// The wind, present where both its direction and its speed are.
    pub wind: Vec<Option<WindSpdDir>>,
    /// The pressure vertical velocity, in Pa/s.
    pub omega: Vec<Option<Decimal>>,
    /// The height above mean sea level, in meters.
    pub height: Vec<Option<Decimal>>,
    /// The cloud fraction, in percent.
    pub cloud_fraction: Vec<Option<Decimal>>,
}

/// The value of a `Profile`.
pub struct ProfileView {
    pub pressure: Seq<Option<Decimal>>,
    pub temperature: Seq<Option<Decimal>>,
    pub wet_bulb: Seq<Option<Decimal>>,
    pub dew_point: Seq<Option<Decimal>>,
    pub theta_e: Seq<Option<Decimal>>,
    pub wind: Seq<Option<WindSpdDir>>,
    pub omega: Seq<Option<Decimal>>,
    pub height: Seq<Option<Decimal>>,
    pub cloud_fraction: Seq<Option<Decimal>>,
}

impl View for Profile {
    type V = ProfileView;

    open spec fn view(&self) -> ProfileView {
        ProfileView {
            pressure: self.pressure@,
            temperature: self.temperature@,
            wet_bulb: self.wet_bulb@,
            dew_point: self.dew_point@,
            theta_e: self.theta_e@,
            wind: self.wind@,
            omega: self.omega@,
            height: self.height@,
            cloud_fraction: self.cloud_fraction@,
        }
    }
}

/// The columns as they are read, with the direction and the speed of the wind
/// still apart.
pub struct RawColumns {
    pub pressure: Seq<Option<Decimal>>,
    pub temperature: Seq<Option<Decimal>>,
    pub wet_bulb: Seq<Option<Decimal>>,
    pub dew_point: Seq<Option<Decimal>>,
    pub theta_e: Seq<Option<Decimal>>,
    pub direction: Seq<Option<Decimal>>,
    pub speed: Seq<Option<Decimal>>,
    pub omega: Seq<Option<Decimal>>,
    pub cloud_fraction: Seq<Option<Decimal>>,
    pub height: Seq<Option<Decimal>>,
}

/// Columns without a value.
pub open spec fn no_columns() -> RawColumns {
    RawColumns {
        pressure: Seq::empty(),
        temperature: Seq::empty(),
        wet_bulb: Seq::empty(),
        dew_point: Seq::empty(),
        theta_e: Seq::empty(),
        direction: Seq::empty(),
        speed: Seq::empty(),
        omega: Seq::empty(),
        cloud_fraction: Seq::empty(),
        height: Seq::empty(),
    }
}

/// The columns `st` with `v` added at the end of the column `name`. There is
/// no column to add to under the name `NONE`.
pub open spec fn push_value(st: RawColumns, name: ColName, v: Option<Decimal>) -> Result<
    RawColumns,
    ErrorKind,
> {
    match name {
        ColName::NONE => Err(ErrorKind::UnrecognizedColumn),
        ColName::PRES => Ok(RawColumns { pressure: st.pressure.push(v), ..st }),
        ColName::TMPC => Ok(RawColumns { temperature: st.temperature.push(v), ..st }),
        ColName::TMWC => Ok(RawColumns { wet_bulb: st.wet_bulb.push(v), ..st }),
        ColName::DWPC => Ok(RawColumns { dew_point: st.dew_point.push(v), ..st }),
        ColName::THTE => Ok(RawColumns { theta_e: st.theta_e.push(v), ..st }),
        ColName::DRCT => Ok(RawColumns { direction: st.direction.push(v), ..st }),
        ColName::SKNT => Ok(RawColumns { speed: st.speed.push(v), ..st }),
        ColName::OMEG => Ok(RawColumns { omega: st.omega.push(v), ..st }),
        ColName::CFRL => Ok(RawColumns { cloud_fraction: st.cloud_fraction.push(v), ..st }),
        ColName::HGHT => Ok(RawColumns { height: st.height.push(v), ..st }),
    }
}

/// The columns that the value tokens `toks` fill. The tokens go to the first
/// `n` names of the layout in turn, again and again; each token must be a
/// decimal, and the missing value gives an absent entry.
pub open spec fn columns_of(toks: Seq<Seq<u8>>, names: Seq<ColName>, n: int) -> Result<
    RawColumns,
    ErrorKind,
>
    decreases toks.len(),
{
    if toks.len() == 0 {
        Ok(no_columns())
    } else {
        match columns_of(toks.drop_last(), names, n) {
            Err(kind) => Err(kind),
            Ok(st) => match decimal_of_token(toks.last()) {
                None => Err(ErrorKind::NumericConversion),
                Some(d) => if n <= 0 {
                    Err(ErrorKind::UnrecognizedColumn)
                } else {
                    push_value(st, names[(toks.len() - 1) % n], spec_check_missing(d))
                },
            },
        }
    }
}

/// The winds of the levels that have both a direction and a speed entry. A
/// wind is present where both entries are.
pub open spec fn winds_of(direction: Seq<Option<Decimal>>, speed: Seq<Option<Decimal>>) -> Seq<
    Option<WindSpdDir>,
> {
    Seq::new(
        if direction.len() <= speed.len() {
            direction.len()
        } else {
            speed.len()
        },
        |i: int|
            match (direction[i], speed[i]) {
                (Some(d), Some(s)) => Some(WindSpdDir { direction: d, speed: s }),
                _ => None,
            },
    )
}

/// The profile that the columns `raw` make.
pub open spec fn profile_from(raw: RawColumns) -> ProfileView {
    ProfileView {
        pressure: raw.pressure,
        temperature: raw.temperature,
        wet_bulb: raw.wet_bulb,
        dew_point: raw.dew_point,
        theta_e: raw.theta_e,
        wind: winds_of(raw.direction, raw.speed),
        omega: raw.omega,
        height: raw.height,
        cloud_fraction: raw.cloud_fraction,
    }
}

/// The profile that the value text `values` gives under the layout `names`.
pub open spec fn profile_of_values(values: Seq<u8>, names: Seq<ColName>) -> Result<
    ProfileView,
    ErrorKind,
> {
    match columns_of(tokens(values), names, count_cols(names, 10) as int) {
        Ok(raw) => Ok(profile_from(raw)),
        Err(kind) => Err(kind),
    }
}

/// Where the header of a profile table ends: at the first digit or minus sign.
pub open spec fn header_end(s: Seq<u8>) -> int {
    first_from(s, 0, |b: u8| b == MINUS || is_digit(b))
}

/// The column that a header token names.
pub open spec fn col_name_of(tok: Seq<u8>) -> Option<ColName> {
    if tok == "PRES".spec_bytes() {
        Some(ColName::PRES)
    } else if tok == "TMPC".spec_bytes() {
        Some(ColName::TMPC)
    } else if tok == "TMWC".spec_bytes() {
        Some(ColName::TMWC)
    } else if tok == "DWPC".spec_bytes() {
        Some(ColName::DWPC)
    } else if tok == "THTE".spec_bytes() {
        Some(ColName::THTE)
    } else if tok == "DRCT".spec_bytes() {
        Some(ColName::DRCT)
    } else if tok == "SKNT".spec_bytes() {
        Some(ColName::SKNT)
    } else if tok == "OMEG".spec_bytes() {
        Some(ColName::OMEG)
    } else if tok == "CFRL".spec_bytes() {
        Some(ColName::CFRL)
    } else if tok == "HGHT".spec_bytes() {
        Some(ColName::HGHT)
    } else {
        None
    }
}

/// The layout that the header text `header` gives: the columns that its
/// tokens name, in order, then `NONE` up to ten names. A header with a token
/// that names no column, or with more than ten tokens, gives no layout.
pub open spec fn layout_of(header: Seq<u8>) -> Result<Seq<ColName>, ErrorKind> {
    let toks = tokens(header);
    if toks.len() <= 10 && forall|i: int|
        0 <= i < toks.len() ==> col_name_of(#[trigger] toks[i]) is Some {
        Ok(
            Seq::new(
                10,
                |i: int|
                    if i < toks.len() {
                        col_name_of(toks[i])->0
                    } else {
                        ColName::NONE
                    },
            ),
        )
    } else {
        Err(ErrorKind::UnrecognizedColumn)
    }
}

/// The profile that the table text `s` gives: its header up to the first
/// digit or minus sign, and its values from there on.
pub open spec fn profile_of(s: Seq<u8>) -> Result<ProfileView, ErrorKind> {
    let e = header_end(s);
    if e >= s.len() {
        Err(ErrorKind::InconsistentProfileLength)
    } else {
        match layout_of(s.subrange(0, e)) {
            Err(kind) => Err(kind),
            Ok(names) => profile_of_values(s.subrange(e, s.len() as int), names),
        }
    }
}

/// Once a token has failed, the tokens after it change nothing.
pub proof fn lemma_columns_error_sticks(
    toks: Seq<Seq<u8>>,
    k: int,
    names: Seq<ColName>,
    n: int,
)
    requires
        0 <= k <= toks.len(),
        columns_of(toks.take(k), names, n) is Err,
    ensures
        columns_of(toks, names, n) == columns_of(toks.take(k), names, n),
    decreases toks.len() - k,
{
    if k == toks.len() {
        assert(toks.take(k) =~= toks);
    } else {
        assert(toks.drop_last().take(k) =~= toks.take(k));
        lemma_columns_error_sticks(toks.drop_last(), k, names, n);
    }
}

/// The column of `raw` that goes by `name`.
pub open spec fn raw_column(raw: RawColumns, name: ColName) -> Seq<Option<Decimal>> {
    match name {
        ColName::NONE => Seq::empty(),
        ColName::PRES => raw.pressure,
        ColName::TMPC => raw.temperature,
        ColName::TMWC => raw.wet_bulb,
        ColName::DWPC => raw.dew_point,
        ColName::THTE => raw.theta_e,
        ColName::DRCT => raw.direction,
        ColName::SKNT => raw.speed,
        ColName::OMEG => raw.omega,
        ColName::CFRL => raw.cloud_fraction,
        ColName::HGHT => raw.height,
    }
}

/// The column of a profile that goes by `name`. The direction and the speed
/// of the wind have no column of their own in a profile.
pub open spec fn profile_column(profile: ProfileView, name: ColName) -> Seq<Option<Decimal>> {
    match name {
        ColName::PRES => profile.pressure,
        ColName::TMPC => profile.temperature,
        ColName::TMWC => profile.wet_bulb,
        ColName::DWPC => profile.dew_point,
        ColName::THTE => profile.theta_e,
        ColName::OMEG => profile.omega,
        ColName::CFRL => profile.cloud_fraction,
        ColName::HGHT => profile.height,
        _ => Seq::empty(),
    }
}

/// Whether the first `k` names of a layout are columns, each named once.
pub open spec fn is_plain_layout(names: Seq<ColName>, k: int) -> bool {
    &&& 1 <= k <= names.len()
    &&& forall|j: int| 0 <= j < k ==> #[trigger] names[j] != ColName::NONE
    &&& forall|i: int, j: int| 0 <= i < j < k ==> #[trigger] names[i] != #[trigger] names[j]
}

/// How many entries the column at place `j` of a layout of `k` columns has
/// after `m` tokens: one for each level that has been read as far as that
/// column.
pub open spec fn levels_read(m: int, k: int, j: int) -> int {
    if j < m % k {
        m / k + 1
    } else {
        m / k
    }
}

/// One token more moves the place in the layout on by one, or back to the
/// first column of the next level.
proof fn lemma_next_place(m: int, k: int)
    requires
        1 <= m,
        1 <= k,
    ensures
        0 <= (m - 1) % k < k,
        if (m - 1) % k + 1 < k {
            m % k == (m - 1) % k + 1 && m / k == (m - 1) / k
        } else {
            m % k == 0 && m / k == (m - 1) / k + 1
        },
{
    let q = (m - 1) / k;
    let r = (m - 1) % k;
    vstd::arithmetic::div_mod::lemma_fundamental_div_mod(m - 1, k);
    vstd::arithmetic::div_mod::lemma_mod_pos_bound(m - 1, k);
    assert(k * q == q * k) by (nonlinear_arith);
    if r + 1 < k {
        vstd::arithmetic::div_mod::lemma_fundamental_div_mod_converse(m, k, q, r + 1);
    } else {
        assert((q + 1) * k == q * k + k) by (nonlinear_arith);
        vstd::arithmetic::div_mod::lemma_fundamental_div_mod_converse(m, k, q + 1, 0);
    }
}

/// Every value stands in its column at its level, as it was written.
///
/// Under a layout of `k` columns, each named once, the token at place `i` is
/// the entry at level `i / k` of the column at place `i % k`: absent where
/// the token writes the missing value, and otherwise the decimal that the
/// token writes, unchanged. No column holds anything else: the column at
/// place `j` has one entry for each level that was read as far as `j`.
pub proof fn lemma_values_by_column_and_level(toks: Seq<Seq<u8>>, names: Seq<ColName>, k: int)
    requires
        is_plain_layout(names, k),
        columns_of(toks, names, k) is Ok,
    ensures
        forall|j: int|
            0 <= j < k ==> (#[trigger] raw_column(columns_of(toks, names, k)->Ok_0, names[j])).len()
                == levels_read(toks.len() as int, k, j),
        forall|i: int|
            0 <= i < toks.len() ==> {
                let column = raw_column(columns_of(toks, names, k)->Ok_0, names[i % k]);
                &&& decimal_of_token(#[trigger] toks[i]) is Some
                &&& 0 <= i / k < column.len()
                &&& column[i / k] == spec_check_missing(decimal_of_token(toks[i])->Some_0)
            },
    decreases toks.len(),
{
    let m = toks.len() as int;
    if m > 0 {
        let before = toks.drop_last();
        let raw_before = columns_of(before, names, k)->Ok_0;
        let raw = columns_of(toks, names, k)->Ok_0;
        lemma_values_by_column_and_level(before, names, k);
        lemma_next_place(m, k);
        let place = (m - 1) % k;
        let level = (m - 1) / k;
        let value = spec_check_missing(decimal_of_token(toks.last())->Some_0);
        assert(names[place] != ColName::NONE);
        assert(push_value(raw_before, names[place], value) == Ok::<RawColumns, ErrorKind>(raw));
        assert(raw_column(raw, names[place]) == raw_column(raw_before, names[place]).push(value));
        assert forall|j: int| 0 <= j < k && j != place implies raw_column(raw, names[j])
            == raw_column(raw_before, names[j]) by {
            assert(names[j] != names[place]);
        }
        assert forall|j: int| 0 <= j < k implies (#[trigger] raw_column(raw, names[j])).len()
            == levels_read(m, k, j) by {
            assert(raw_column(raw_before, names[j]).len() == levels_read(m - 1, k, j));
        }
        assert forall|i: int| 0 <= i < m implies {
            let column = raw_column(raw, names[i % k]);
            &&& decimal_of_token(#[trigger] toks[i]) is Some
            &&& 0 <= i / k < column.len()
            &&& column[i / k] == spec_check_missing(decimal_of_token(toks[i])->Some_0)
        } by {
            if i < m - 1 {
                assert(before[i] == toks[i]);
                vstd::arithmetic::div_mod::lemma_mod_pos_bound(i, k);
                let j = i % k;
                assert(raw_column(raw_before, names[j]).len() == levels_read(m - 1, k, j));
                if j != place {
                    assert(raw_column(raw, names[j]) == raw_column(raw_before, names[j]));
                }
            } else {
                assert(raw_column(raw_before, names[place]).len() == levels_read(
                    m - 1,
                    k,
                    place,
                ));
            }
        }
    } else {
        assert forall|j: int| 0 <= j < k implies (#[trigger] raw_column(
            columns_of(toks, names, k)->Ok_0,
            names[j],
        )).len() == levels_read(0, k, j) by {
            assert(names[j] != ColName::NONE);
        }
    }
}

/// A profile keeps every value at its column and level.
///
/// Where the value text gives a profile under a layout of `k` columns, each
/// named once, the token at place `i` that does not fall to the direction or
/// the speed of the wind is the entry at level `i / k` of its column, absent
/// where it writes the missing value and unchanged otherwise.
pub proof fn lemma_profile_keeps_values(values: Seq<u8>, names: Seq<ColName>, k: int)
    requires
        is_plain_layout(names, k),
        count_cols(names, 10) == k,
        profile_of_values(values, names) is Ok,
    ensures
        forall|i: int|
            0 <= i < tokens(values).len() && names[i % k] != ColName::DRCT && names[i % k]
                != ColName::SKNT ==> {
                let column = profile_column(profile_of_values(values, names)->Ok_0, names[i % k]);
                &&& decimal_of_token(#[trigger] tokens(values)[i]) is Some
                &&& 0 <= i / k < column.len()
                &&& column[i / k] == spec_check_missing(
                    decimal_of_token(tokens(values)[i])->Some_0,
                )
            },
{
    let toks = tokens(values);
    lemma_values_by_column_and_level(toks, names, k);
    let raw = columns_of(toks, names, k)->Ok_0;
    assert forall|i: int|
        0 <= i < toks.len() && names[i % k] != ColName::DRCT && names[i % k]
            != ColName::SKNT implies {
        let column = profile_column(profile_of_values(values, names)->Ok_0, names[i % k]);
        &&& decimal_of_token(#[trigger] toks[i]) is Some
        &&& 0 <= i / k < column.len()
        &&& column[i / k] == spec_check_missing(decimal_of_token(toks[i])->Some_0)
    } by {
        vstd::arithmetic::div_mod::lemma_mod_pos_bound(i, k);
        assert(names[i % k] != ColName::NONE);
        assert(profile_column(profile_from(raw), names[i % k]) == raw_column(raw, names[i % k]));
    }
}

/// Reads the column that a header token names.
fn read_col_name(tok: &[u8]) -> (r: Option<ColName>)
    ensures
        r == col_name_of(tok@),
{
    if bytes_equal(tok, "PRES".as_bytes()) {
        Some(ColName::PRES)
    } else if bytes_equal(tok, "TMPC".as_bytes()) {
        Some(ColName::TMPC)
    } else if bytes_equal(tok, "TMWC".as_bytes()) {
        Some(ColName::TMWC)
    } else if bytes_equal(tok, "DWPC".as_bytes()) {
        Some(ColName::DWPC)
    } else if bytes_equal(tok, "THTE".as_bytes()) {
        Some(ColName::THTE)
    } else if bytes_equal(tok, "DRCT".as_bytes()) {
        Some(ColName::DRCT)
    } else if bytes_equal(tok, "SKNT".as_bytes()) {
        Some(ColName::SKNT)
    } else if bytes_equal(tok, "OMEG".as_bytes()) {
        Some(ColName::OMEG)
    } else if bytes_equal(tok, "CFRL".as_bytes()) {
        Some(ColName::CFRL)
    } else if bytes_equal(tok, "HGHT".as_bytes()) {
        Some(ColName::HGHT)
    } else {
        None
    }
}

impl Profile {
    /// Parses a profile table: a header that names the columns, then the
    /// values, level after level.
    pub fn parse(src: &[u8]) -> (r: Result<Profile, BufkitFileError>)
        ensures
            match profile_of(src@) {
                Ok(profile) => r is Ok && r->Ok_0@ == profile,
                Err(kind) => r is Err && r->Err_0.kind == kind,
            },
    {
        let (header, values) = match Profile::split_header_and_values(src) {
            Ok(parts) => parts,
            Err(e) => {
                return Err(e);
            },
        };
        let cols = match Profile::get_column_indexes(header) {
            Ok(cols) => cols,
            Err(e) => {
                return Err(e);
            },
        };
        Profile::parse_values(values, &cols)
    }

    /// Splits the table into its header and its values, at the first digit or
    /// minus sign. A table without one has no values and fails with
    /// `InconsistentProfileLength`.
    pub fn split_header_and_values<'a>(src: &'a [u8]) -> (r: Result<
        (&'a [u8], &'a [u8]),
        BufkitFileError,
    >)
        ensures
            match r {
                Ok((header, values)) => header_end(src@) < src@.len() && header@
                    == src@.subrange(0, header_end(src@)) && values@ == src@.subrange(
                    header_end(src@),
                    src@.len() as int,
                ),
                Err(e) => header_end(src@) >= src@.len() && e.kind
                    == ErrorKind::InconsistentProfileLength,
            },
    {
        let n: usize = src.len();
        let mut i: usize = 0;
        while i < n && !(src[i] == MINUS || is_digit(src[i]))
            invariant
                i <= n,
                n == src@.len(),
                forall|j: int| 0 <= j < i ==> !(#[trigger] src@[j] == MINUS || is_digit(src@[j])),
            decreases n - i,
        {
            i += 1;
        }
        proof {
            lemma_first_from_is(src@, 0, |b: u8| b == MINUS || is_digit(b), i as int);
        }
        if i == n {
            return Err(BufkitFileError::new(ErrorKind::InconsistentProfileLength));
        }
        Ok((vstd::slice::slice_subrange(src, 0, i), vstd::slice::slice_subrange(src, i, n)))
    }

    /// Reads the layout of the table from its header. Every token of the
    /// header must name a known column, and there may be ten at most: else the
    /// header fails with `UnrecognizedColumn`.
    pub fn get_column_indexes(header: &[u8]) -> (r: Result<ProfileColIndexes, BufkitFileError>)
        ensures
            match layout_of(header@) {
                Ok(names) => r is Ok && r->Ok_0.names@ == names,
                Err(kind) => r is Err && r->Err_0.kind == kind,
            },
    {
        let mut cols: ProfileColIndexes = Default::default();
        let mut rest: &[u8] = header;
        let mut i: usize = 0;
        let ghost mut seen: Seq<Seq<u8>> = Seq::empty();
        assert(seen + tokens(rest@) =~= tokens(header@));
        loop
            invariant
                i <= 10,
                i == seen.len(),
                tokens(header@) == seen + tokens(rest@),
                forall|j: int| 0 <= j < i ==> col_name_of(seen[j]) == Some(#[trigger] cols.names@[j]),
                forall|j: int| i <= j < 10 ==> #[trigger] cols.names@[j] == ColName::NONE,
            decreases rest@.len(),
        {
            match split_first_token(rest) {
                None => {
                    proof {
                        let toks = tokens(header@);
                        assert(toks =~= seen);
                        assert forall|j: int| 0 <= j < toks.len() implies col_name_of(
                            #[trigger] toks[j],
                        ) is Some by {
                            assert(col_name_of(seen[j]) == Some(cols.names@[j]));
                        }
                        assert(cols.names@ =~= layout_of(header@)->Ok_0);
                    }
                    return Ok(cols);
                },
                Some((tok, after)) => {
                    proof {
                        let toks = tokens(header@);
                        assert(tokens(rest@) == seq![tok@] + tokens(after@));
                        assert(toks[i as int] == tok@);
                        assert(toks.len() > i);
                    }
                    if i >= 10 {
                        return Err(BufkitFileError::new(ErrorKind::UnrecognizedColumn));
                    }
                    match read_col_name(tok) {
                        None => {
                            return Err(BufkitFileError::new(ErrorKind::UnrecognizedColumn));
                        },
                        Some(name) => {
                            cols.names[i] = name;
                        },
                    }
                    proof {
                        assert(seen.push(tok@) + tokens(after@) =~= seen + tokens(rest@));
                        seen = seen.push(tok@);
                    }
                    rest = after;
                    i += 1;
                },
            }
        }
    }

    /// Reads the values of the table under the layout `cols`.
    ///
    /// The tokens go to the columns of the layout in turn. A token that is no
    /// decimal fails the table with `NumericConversion`; a token that falls
    /// on a place of the layout without a column, or to a layout without any
    /// column, fails it with `UnrecognizedColumn`.
    pub fn parse_values(values: &[u8], cols: &ProfileColIndexes) -> (r: Result<
        Profile,
        BufkitFileError,
    >)
        ensures
            match profile_of_values(values@, cols.names@) {
                Ok(profile) => r is Ok && r->Ok_0@ == profile,
                Err(kind) => r is Err && r->Err_0.kind == kind,
            },
    {
        let mut pressure: Vec<Option<Decimal>> = Vec::new();
        let mut temperature: Vec<Option<Decimal>> = Vec::new();
        let mut wet_bulb: Vec<Option<Decimal>> = Vec::new();
        let mut dew_point: Vec<Option<Decimal>> = Vec::new();
        let mut theta_e: Vec<Option<Decimal>> = Vec::new();
        let mut direction: Vec<Option<Decimal>> = Vec::new();
        let mut speed: Vec<Option<Decimal>> = Vec::new();
        let mut omega: Vec<Option<Decimal>> = Vec::new();
        let mut cloud_fraction: Vec<Option<Decimal>> = Vec::new();
        let mut height: Vec<Option<Decimal>> = Vec::new();
        let num_cols: usize = cols.num_cols();
        let total: usize = values.len();
        let mut rest: &[u8] = values;
        let mut i: usize = 0;
        let ghost mut seen: Seq<Seq<u8>> = Seq::empty();
        let ghost all = tokens(values@);
        assert(seen + tokens(rest@) =~= all);
        loop
            invariant
                num_cols == count_cols(cols.names@, 10),
                num_cols <= 10,
                all == tokens(values@),
                i == seen.len(),
                total == values@.len(),
                i + rest@.len() <= total,
                all == seen + tokens(rest@),
                columns_of(seen, cols.names@, num_cols as int) == Ok::<RawColumns, ErrorKind>(
                    RawColumns {
                        pressure: pressure@,
                        temperature: temperature@,
                        wet_bulb: wet_bulb@,
                        dew_point: dew_point@,
                        theta_e: theta_e@,
                        direction: direction@,
                        speed: speed@,
                        omega: omega@,
                        cloud_fraction: cloud_fraction@,
                        height: height@,
                    },
                ),
            ensures
                all == seen,
            decreases rest@.len(),
        {
            let (tok, after) = match split_first_token(rest) {
                None => {
                    assert(all =~= seen);
                    break ;
                },
                Some(parts) => parts,
            };
            let ghost next = seen.push(tok@);
            proof {
                assert(tokens(rest@) == seq![tok@] + tokens(after@));
                assert(next + tokens(after@) =~= all);
                assert(all.take(i + 1) =~= next);
                assert(next.drop_last() =~= seen);
            }
            let val: Option<Decimal> = match Decimal::parse(tok) {
                Some(d) => check_missing(d),
                None => {
                    proof {
                        lemma_columns_error_sticks(all, i + 1, cols.names@, num_cols as int);
                    }
                    return Err(BufkitFileError::new(ErrorKind::NumericConversion));
                },
            };
            if num_cols == 0 {
                proof {
                    lemma_columns_error_sticks(all, i + 1, cols.names@, num_cols as int);
                }
                return Err(BufkitFileError::new(ErrorKind::UnrecognizedColumn));
            }
            match cols.names[i % num_cols] {
                ColName::NONE => {
                    proof {
                        lemma_columns_error_sticks(all, i + 1, cols.names@, num_cols as int);
                    }
                    return Err(BufkitFileError::new(ErrorKind::UnrecognizedColumn));
                },
                ColName::PRES => pressure.push(val),
                ColName::TMPC => temperature.push(val),
                ColName::TMWC => wet_bulb.push(val),
                ColName::DWPC => dew_point.push(val),
                ColName::THTE => theta_e.push(val),
                ColName::DRCT => direction.push(val),
                ColName::SKNT => speed.push(val),
                ColName::OMEG => omega.push(val),
                ColName::CFRL => cloud_fraction.push(val),
                ColName::HGHT => height.push(val),
            }
            proof {
                seen = next;
            }
            rest = after;
            i += 1;
        }
        let wind = combine_winds(&direction, &speed);
        Ok(
            Profile {
                pressure,
                temperature,
                wet_bulb,
                dew_point,
                theta_e,
                wind,
                omega,
                height,
                cloud_fraction,
            },
        )
    }
}

/// Joins the direction and the speed of each level into one wind, present
/// where both are.
pub fn combine_winds(direction: &Vec<Option<Decimal>>, speed: &Vec<Option<Decimal>>) -> (wind:
    Vec<Option<WindSpdDir>>)
    ensures
        wind@ == winds_of(direction@, speed@),
{
    let n: usize = if direction.len() <= speed.len() {
        direction.len()
    } else {
        speed.len()
    };
    let mut wind: Vec<Option<WindSpdDir>> = Vec::new();
    let mut i: usize = 0;
    while i < n
        invariant
            i <= n,
            n <= direction@.len(),
            n <= speed@.len(),
            wind@.len() == i,
            forall|j: int| 0 <= j < i ==> #[trigger] wind@[j] == winds_of(direction@, speed@)[j],
        decreases n - i,
    {
        let w: Option<WindSpdDir> = match (direction[i], speed[i]) {
            (Some(d), Some(s)) => Some(WindSpdDir { direction: d, speed: s }),
            _ => None,
        };
        wind.push(w);
        i += 1;
    }
    assert(wind@ =~= winds_of(direction@, speed@));
    wind
}

} // verus!
