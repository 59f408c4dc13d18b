//! A BUFKIT file, its two sections, and the records that both sections agree
//! on.
pub mod combine;
pub mod surface;
pub mod surface_section;
pub mod upper_air;
pub mod upper_air_section;

use std::collections::HashMap;
use vstd::prelude::*;
use vstd::string::StringSliceAdditionalSpecFns;

use crate::bufkit_data::combine::{analysis_of, combine_data, sounding_of, Sounding};
use crate::bufkit_data::surface::{SfcColName, SurfaceData};
use crate::bufkit_data::surface_section::{
    surface_section_of, surface_stream, SurfaceIterator, SurfaceSection,
};
use crate::bufkit_data::upper_air::UpperAirView;
use crate::bufkit_data::upper_air_section::{
    lemma_upper_air_stream, upper_air_stream, UpperAirIterator, UpperAirSection,
};
use crate::error::{BufkitFileError, ErrorKind};
use crate::number::Decimal;
use crate::text::{find_key, first_occurrence, lemma_first_occurrence};
use crate::valid_time::ValidTime;

verus! {

/// The text that the header of the surface table begins with. It parts the
/// two sections of a file.
pub open spec fn surface_marker() -> Seq<u8> {
    "STN YYMMDD/HHMM".spec_bytes()
}

/// The pairs that reading two streams in step gives.
///
/// The reading holds one upper-air record and one surface record at a time.
/// While the surface record is the earlier one, it is dropped for the next;
/// while the upper-air record is the earlier one, it is dropped for the next;
/// when both are of one valid time, they make a pair, and both are dropped
/// for the next. The reading ends when either stream ends, and it ends with
/// the error when the upper-air stream comes to one.
pub open spec fn merged_stream(
    ua: Seq<Result<UpperAirView, ErrorKind>>,
    sd: Seq<SurfaceData>,
) -> Seq<Result<(UpperAirView, SurfaceData), ErrorKind>>
    decreases ua.len() + sd.len(),
{
    if ua.len() == 0 {
        Seq::empty()
    } else {
        match ua[0] {
            Err(kind) => seq![Err(kind)],
            Ok(u) => if sd.len() == 0 {
                Seq::empty()
            } else if sd[0].valid_time.is_before(&u.station.valid_time) {
                merged_stream(ua, sd.drop_first())
            } else if u.station.valid_time.is_before(&sd[0].valid_time) {
                merged_stream(ua.drop_first(), sd)
            } else {
                seq![Ok((u, sd[0]))] + merged_stream(ua.drop_first(), sd.drop_first())
            },
        }
    }
}

/// The valid time of an upper-air record of a stream.
pub open spec fn time_of(r: Result<UpperAirView, ErrorKind>) -> ValidTime {
    r->Ok_0.station.valid_time
}

/// Whether a stream of upper-air records has no error, and each record is
/// earlier than all that follow it.
pub open spec fn upper_air_in_order(ua: Seq<Result<UpperAirView, ErrorKind>>) -> bool {
    &&& forall|i: int| 0 <= i < ua.len() ==> (#[trigger] ua[i]) is Ok
    &&& forall|i: int, j: int|
        0 <= i < j < ua.len() ==> time_of(#[trigger] ua[i]).is_before(&time_of(#[trigger] ua[j]))
}

/// Whether each record of a stream of surface records is earlier than all
/// that follow it.
pub open spec fn surface_in_order(sd: Seq<SurfaceData>) -> bool {
    forall|i: int, j: int|
        0 <= i < j < sd.len() ==> (#[trigger] sd[i]).valid_time.is_before(
            &(#[trigger] sd[j]).valid_time,
        )
}

/// Whether `item` is the pair of the upper-air record at `i` and the surface
/// record at `j`, which are of one valid time.
pub open spec fn is_pair_of(
    ua: Seq<Result<UpperAirView, ErrorKind>>,
    sd: Seq<SurfaceData>,
    i: int,
    j: int,
    item: Result<(UpperAirView, SurfaceData), ErrorKind>,
) -> bool {
    &&& 0 <= i < ua.len()
    &&& 0 <= j < sd.len()
    &&& item == Ok::<(UpperAirView, SurfaceData), ErrorKind>((ua[i]->Ok_0, sd[j]))
    &&& time_of(ua[i]) == sd[j].valid_time
}

/// Whether `item` is a pair of an upper-air record and a surface record of the
/// two streams, which are of one valid time.
pub open spec fn is_pair(
    ua: Seq<Result<UpperAirView, ErrorKind>>,
    sd: Seq<SurfaceData>,
    item: Result<(UpperAirView, SurfaceData), ErrorKind>,
) -> bool {
    exists|i: int, j: int| is_pair_of(ua, sd, i, j, item)
}

/// Reading two streams in step gives exactly the pairs of one valid time.
///
/// Where both streams are in order of time and the upper-air stream has no
/// error: every pair that is given joins an upper-air record and a surface
/// record of one valid time; every such two records are given as a pair; and
/// the pairs come in order of time, so that no two of them share a valid
/// time.
pub proof fn lemma_merge_is_exact(ua: Seq<Result<UpperAirView, ErrorKind>>, sd: Seq<SurfaceData>)
    requires
        upper_air_in_order(ua),
        surface_in_order(sd),
    ensures
        forall|k: int|
            0 <= k < merged_stream(ua, sd).len() ==> is_pair(
                ua,
                sd,
                #[trigger] merged_stream(ua, sd)[k],
            ),
        forall|i: int, j: int|
            0 <= i < ua.len() && 0 <= j < sd.len() && time_of(#[trigger] ua[i])
                == (#[trigger] sd[j]).valid_time ==> merged_stream(ua, sd).contains(
                Ok((ua[i]->Ok_0, sd[j])),
            ),
        forall|k: int, l: int|
            0 <= k < l < merged_stream(ua, sd).len() ==> (#[trigger] merged_stream(
                ua,
                sd,
            )[k])->Ok_0.1.valid_time.is_before(
                &(#[trigger] merged_stream(ua, sd)[l])->Ok_0.1.valid_time,
            ),
    decreases ua.len() + sd.len(),
{
    let m = merged_stream(ua, sd);
    if ua.len() == 0 || sd.len() == 0 {
        assert(m.len() == 0);
    } else {
        let u = ua[0]->Ok_0;
        let ua1 = ua.drop_first();
        let sd1 = sd.drop_first();
        assert(ua[0] is Ok);
        assert forall|i: int| 0 <= i < ua1.len() implies ua1[i] == ua[i + 1] by {}
        assert forall|j: int| 0 <= j < sd1.len() implies sd1[j] == sd[j + 1] by {}
        assert(upper_air_in_order(ua1)) by {
            assert forall|i: int, j: int| 0 <= i < j < ua1.len() implies time_of(
                #[trigger] ua1[i],
            ).is_before(&time_of(#[trigger] ua1[j])) by {
                assert(time_of(ua[i + 1]).is_before(&time_of(ua[j + 1])));
            }
            assert forall|i: int| 0 <= i < ua1.len() implies (#[trigger] ua1[i]) is Ok by {
                assert(ua[i + 1] is Ok);
            }
        }
        assert(surface_in_order(sd1)) by {
            assert forall|i: int, j: int| 0 <= i < j < sd1.len() implies (
            #[trigger] sd1[i]).valid_time.is_before(&(#[trigger] sd1[j]).valid_time) by {
                assert(sd[i + 1].valid_time.is_before(&sd[j + 1].valid_time));
            }
        }
        if sd[0].valid_time.is_before(&u.station.valid_time) {
            lemma_merge_is_exact(ua, sd1);
            assert(m == merged_stream(ua, sd1));
            assert forall|k: int| 0 <= k < m.len() implies is_pair(ua, sd, #[trigger] m[k]) by {
                assert(is_pair(ua, sd1, m[k]));
                let (i, j) = choose|i: int, j: int| is_pair_of(ua, sd1, i, j, m[k]);
                assert(is_pair_of(ua, sd, i, j + 1, m[k]));
            }
            assert forall|i: int, j: int|
                0 <= i < ua.len() && 0 <= j < sd.len() && time_of(#[trigger] ua[i])
                    == (#[trigger] sd[j]).valid_time implies m.contains(
                Ok((ua[i]->Ok_0, sd[j])),
            ) by {
                if j == 0 {
                    if i > 0 {
                        assert(time_of(ua[0]).is_before(&time_of(ua[i])));
                    }
                } else {
                    assert(sd1[j - 1] == sd[j]);
                    assert(time_of(ua[i]) == sd1[j - 1].valid_time);
                }
            }
        } else if u.station.valid_time.is_before(&sd[0].valid_time) {
            lemma_merge_is_exact(ua1, sd);
            assert(m == merged_stream(ua1, sd));
            assert forall|k: int| 0 <= k < m.len() implies is_pair(ua, sd, #[trigger] m[k]) by {
                assert(is_pair(ua1, sd, m[k]));
                let (i, j) = choose|i: int, j: int| is_pair_of(ua1, sd, i, j, m[k]);
                assert(is_pair_of(ua, sd, i + 1, j, m[k]));
            }
            assert forall|i: int, j: int|
                0 <= i < ua.len() && 0 <= j < sd.len() && time_of(#[trigger] ua[i])
                    == (#[trigger] sd[j]).valid_time implies m.contains(
                Ok((ua[i]->Ok_0, sd[j])),
            ) by {
                if i == 0 {
                    if j > 0 {
                        assert(sd[0].valid_time.is_before(&sd[j].valid_time));
                    }
                } else {
                    assert(ua1[i - 1] == ua[i]);
                    assert(time_of(ua1[i - 1]) == sd[j].valid_time);
                }
            }
        } else {
            lemma_merge_is_exact(ua1, sd1);
            let rest = merged_stream(ua1, sd1);
            let first = Ok::<(UpperAirView, SurfaceData), ErrorKind>((u, sd[0]));
            assert(m == seq![first] + rest);
            assert(m[0] == first);
            assert forall|k: int| 1 <= k < m.len() implies m[k] == rest[k - 1] by {}
            assert(is_pair_of(ua, sd, 0, 0, m[0]));
            assert forall|k: int| 0 <= k < m.len() implies is_pair(ua, sd, #[trigger] m[k]) by {
                if k > 0 {
                    let found = rest[k - 1];
                    assert(is_pair(ua1, sd1, found));
                    let (i, j) = choose|i: int, j: int| is_pair_of(ua1, sd1, i, j, found);
                    assert(is_pair_of(ua, sd, i + 1, j + 1, m[k]));
                }
            }
            assert forall|i: int, j: int|
                0 <= i < ua.len() && 0 <= j < sd.len() && time_of(#[trigger] ua[i])
                    == (#[trigger] sd[j]).valid_time implies m.contains(
                Ok((ua[i]->Ok_0, sd[j])),
            ) by {
                if i == 0 && j == 0 {
                } else if i == 0 {
                    assert(sd[0].valid_time.is_before(&sd[j].valid_time));
                } else if j == 0 {
                    assert(time_of(ua[0]).is_before(&time_of(ua[i])));
                } else {
                    assert(ua1[i - 1] == ua[i]);
                    assert(sd1[j - 1] == sd[j]);
                    assert(time_of(ua1[i - 1]) == sd1[j - 1].valid_time);
                    let item = Ok::<(UpperAirView, SurfaceData), ErrorKind>((ua[i]->Ok_0, sd[j]));
                    assert(rest.contains(item));
                    let k = choose|k: int| 0 <= k < rest.len() && rest[k] == item;
                    assert(m[k + 1] == item);
                }
            }
            assert forall|k: int, l: int| 0 <= k < l < m.len() implies (
            #[trigger] m[k])->Ok_0.1.valid_time.is_before(&(#[trigger] m[l])->Ok_0.1.valid_time) by {
                let later = rest[l - 1];
                assert(is_pair(ua1, sd1, later));
                let (i, j) = choose|i: int, j: int| is_pair_of(ua1, sd1, i, j, later);
                assert(sd1[j] == sd[j + 1]);
                if k == 0 {
                    assert(sd[0].valid_time.is_before(&sd[j + 1].valid_time));
                } else {
                    assert(m[k] == rest[k - 1]);
                }
            }
        }
    }
}

/// Hold an entire BUFKIT file in memory.
pub struct BufkitFile {
    file_text: String,
    file_name: String,
}

/// The two sections of a BUFKIT file, ready to be read.
pub struct BufkitData<'a> {
    upper_air: UpperAirSection<'a>,
    surface: SurfaceSection<'a>,
    file_name: &'a str,
}

/// Reads the soundings of a BUFKIT file one at a time. Once the reading has
/// come to its end or to an error, it gives nothing more.
pub struct SoundingIterator<'a> {
    upper_air_it: UpperAirIterator<'a>,
    surface_it: SurfaceIterator<'a>,
    source_name: &'a str,
    finished: bool,
}

/// The model of a file that was parted in two: the text of the upper-air
/// section, the layout of the surface table, and the text of its rows.
pub struct BufkitDataView {
    pub upper_air: Seq<u8>,
    pub names: Seq<SfcColName>,
    pub rows: Seq<u8>,
}

/// The two sections of the file text `s`. The surface section begins at the
/// first surface marker, and the upper-air section is all that stands before.
pub open spec fn bufkit_data_of(s: Seq<u8>) -> Result<BufkitDataView, ErrorKind> {
    match first_occurrence(s, surface_marker()) {
        None => Err(ErrorKind::SectionBoundaryNotFound),
        Some(b) => match surface_section_of(s.subrange(b, s.len() as int)) {
            Err(kind) => Err(kind),
            Ok((names, rows)) => Ok(BufkitDataView { upper_air: s.subrange(0, b), names, rows }),
        },
    }
}

impl BufkitDataView {
    /// The failure that a validation of the two sections meets, if any: that
    /// of the first upper-air record that fails. The surface section has no
    /// failure of its own: a row that does not decode is passed over, and a
    /// text that ends inside a row ends the reading.
    pub open spec fn fault(&self) -> Option<ErrorKind> {
        let ua = upper_air_stream(self.upper_air);
        if ua.len() > 0 && ua.last() is Err {
            Some(ua.last()->Err_0)
        } else {
            None
        }
    }

    /// The pairs of records that reading the two sections in step gives.
    pub open spec fn merged(&self) -> Seq<Result<(UpperAirView, SurfaceData), ErrorKind>> {
        merged_stream(upper_air_stream(self.upper_air), surface_stream(self.rows, self.names))
    }
}

/// A validation succeeds exactly when both sections can be read to their end
/// without a failure, that is when no entry of the upper-air stream is an
/// error: reading the surface rows never fails.
pub proof fn lemma_validation_is_a_full_reading(data: BufkitDataView)
    ensures
        data.fault() is None <==> forall|i: int|
            0 <= i < upper_air_stream(data.upper_air).len() ==> (#[trigger] upper_air_stream(
                data.upper_air,
            )[i]) is Ok,
{
    lemma_upper_air_stream(data.upper_air);
    let ua = upper_air_stream(data.upper_air);
    if ua.len() > 0 && ua.last() is Err {
        assert(ua[ua.len() - 1] is Err);
    }
}

impl BufkitFile {
    /// The text of the file.
    pub closed spec fn text(&self) -> Seq<char> {
        self.file_text@
    }

    /// The name of the file.
    pub closed spec fn name(&self) -> Seq<char> {
        self.file_name@
    }

    /// The bytes of the text of the file.
    pub open spec fn bytes(&self) -> Seq<u8> {
        vstd::utf8::encode_utf8(self.text())
    }

    /// Holds the text of a file that was read, with the name of the file.
    pub fn new(file_text: String, file_name: String) -> (f: BufkitFile)
        ensures
            f.text() == file_text@,
            f.name() == file_name@,
    {
        BufkitFile { file_text, file_name }
    }

    /// Validate the whole file: ensure that it has its two sections, that the
    /// surface table has its header, and that every upper-air record parses.
    pub fn validate_file_format(&self) -> (r: Result<(), BufkitFileError>)
        ensures
            match bufkit_data_of(self.bytes()) {
                Err(kind) => r is Err && r->Err_0.kind == kind,
                Ok(data) => match data.fault() {
                    None => r is Ok,
                    Some(kind) => r is Err && r->Err_0.kind == kind,
                },
            },
    {
        let data = match self.data() {
            Ok(data) => data,
            Err(e) => {
                return Err(e);
            },
        };
        data.validate()
    }

    /// Get the two sections of this file.
    pub fn data(&self) -> (r: Result<BufkitData<'_>, BufkitFileError>)
        ensures
            match bufkit_data_of(self.bytes()) {
                Ok(data) => r is Ok && r->Ok_0@ == data && r->Ok_0.source() == self.name(),
                Err(kind) => r is Err && r->Err_0.kind == kind,
            },
    {
        BufkitData::init(self.file_text.as_str().as_bytes(), self.file_name.as_str())
    }

    /// Get the raw text of the file.
    pub fn raw_text(&self) -> (s: &str)
        ensures
            s@ == self.text(),
    {
        self.file_text.as_str()
    }
}

impl<'a> View for BufkitData<'a> {
    type V = BufkitDataView;

    closed spec fn view(&self) -> BufkitDataView {
        BufkitDataView {
            upper_air: self.upper_air.text(),
            names: self.surface.names(),
            rows: self.surface.text(),
        }
    }
}

impl<'a> BufkitData<'a> {
    /// The name of the file that the data comes from.
    pub closed spec fn source(&self) -> Seq<char> {
        self.file_name@
    }

    /// Validate both sections by reading each to its end: succeeds exactly
    /// when every upper-air record parses and is consistent, and fails with
    /// the error of the first one that does not. The surface rows are read as
    /// the iterator reads them, which never fails.
    pub fn validate(&self) -> (r: Result<(), BufkitFileError>)
        ensures
            match self@.fault() {
                None => r is Ok,
                Some(kind) => r is Err && r->Err_0.kind == kind,
            },
    {
        match self.upper_air.validate_section() {
            Ok(_) => {},
            Err(e) => {
                return Err(e);
            },
        }
        proof {
            let ua = upper_air_stream(self@.upper_air);
            if ua.len() > 0 {
                assert(ua[ua.len() - 1] is Ok);
            }
        }
        let mut rows = self.surface.into_iter();
        loop
            invariant
                self@.fault() is None,
            decreases rows.text().len(),
        {
            if rows.next().is_none() {
                return Ok(());
            }
        }
    }

    /// Parts the text of a file into its two sections, ready to be read.
    ///
    /// Fails with `SectionBoundaryNotFound` where the text has no surface
    /// marker, and as `SurfaceSection::new` does where the surface section
    /// has no valid header.
    pub fn init(text: &'a [u8], fname: &'a str) -> (r: Result<BufkitData<'a>, BufkitFileError>)
        ensures
            match bufkit_data_of(text@) {
                Ok(data) => r is Ok && r->Ok_0@ == data && r->Ok_0.source() == fname@,
                Err(kind) => r is Err && r->Err_0.kind == kind,
            },
    {
        let break_point = match BufkitData::find_break_point(text) {
            Ok(b) => b,
            Err(e) => {
                return Err(e);
            },
        };
        BufkitData::new_with_break_point(text, break_point, fname)
    }

    /// Parts the text at `break_point`: the upper-air section before it, the
    /// surface section from it on.
    pub fn new_with_break_point(text: &'a [u8], break_point: usize, fname: &'a str) -> (r: Result<
        BufkitData<'a>,
        BufkitFileError,
    >)
        requires
            break_point <= text@.len(),
        ensures
            match surface_section_of(text@.subrange(break_point as int, text@.len() as int)) {
                Ok((names, rows)) => r is Ok && r->Ok_0@ == (BufkitDataView {
                    upper_air: text@.subrange(0, break_point as int),
                    names,
                    rows,
                }) && r->Ok_0.source() == fname@,
                Err(kind) => r is Err && r->Err_0.kind == kind,
            },
    {
        let surface = match SurfaceSection::new(
            vstd::slice::slice_subrange(text, break_point, text.len()),
        ) {
            Ok(surface) => surface,
            Err(e) => {
                return Err(e);
            },
        };
        Ok(
            BufkitData {
                upper_air: UpperAirSection::new(vstd::slice::slice_subrange(text, 0, break_point)),
                surface,
                file_name: fname,
            },
        )
    }

    /// Finds where the surface section begins: at the first surface marker.
    /// Fails with `SectionBoundaryNotFound` where the text has none.
    pub fn find_break_point(text: &[u8]) -> (r: Result<usize, BufkitFileError>)
        ensures
            match first_occurrence(text@, surface_marker()) {
                Some(b) => r is Ok && r->Ok_0 == b && b <= text@.len(),
                None => r is Err && r->Err_0.kind == ErrorKind::SectionBoundaryNotFound,
            },
    {
        proof {
            lemma_first_occurrence(text@, surface_marker(), 0);
        }
        match find_key(text, "STN YYMMDD/HHMM".as_bytes()) {
            None => Err(BufkitFileError::new(ErrorKind::SectionBoundaryNotFound)),
            Some(val) => Ok(val),
        }
    }

    /// Reads all the soundings of the file, in order.
    ///
    /// Gives every pair of an upper-air record and a surface record that
    /// reading the two sections in step comes to, joined as `combine_data`
    /// joins them. Fails with the error of an upper-air record that fails
    /// where the reading comes to it.
    pub fn soundings(&'a self) -> (r: Result<
        Vec<(Sounding, HashMap<u64, Decimal>)>,
        BufkitFileError,
    >)
        ensures
            match r {
                Ok(all) => {
                    &&& all@.len() == self@.merged().len()
                    &&& forall|i: int|
                        0 <= i < all@.len() ==> {
                            let pair = #[trigger] self@.merged()[i];
                            &&& pair is Ok
                            &&& all@[i].0@ == sounding_of(pair->Ok_0.0, pair->Ok_0.1, self.source())
                            &&& all@[i].1@ == analysis_of(pair->Ok_0.0.indexes, pair->Ok_0.1)
                        }
                },
                Err(e) => self@.merged().len() > 0 && self@.merged().last() == Err::<
                    (UpperAirView, SurfaceData),
                    ErrorKind,
                >(e.kind),
            },
    {
        let mut it = self.into_iter();
        let mut all: Vec<(Sounding, HashMap<u64, Decimal>)> = Vec::new();
        let ghost merged = self@.merged();
        let ghost mut seen: Seq<Result<(UpperAirView, SurfaceData), ErrorKind>> = Seq::empty();
        assert(seen + it.pending() =~= merged);
        loop
            invariant
                merged == self@.merged(),
                merged == seen + it.pending(),
                it.source() == self.source(),
                all@.len() == seen.len(),
                forall|i: int|
                    0 <= i < all@.len() ==> {
                        let pair = #[trigger] seen[i];
                        &&& pair is Ok
                        &&& all@[i].0@ == sounding_of(pair->Ok_0.0, pair->Ok_0.1, self.source())
                        &&& all@[i].1@ == analysis_of(pair->Ok_0.0.indexes, pair->Ok_0.1)
                    },
            decreases it.text_left(),
        {
            let ghost before = it.pending();
            match it.next() {
                None => {
                    assert(merged =~= seen);
                    return Ok(all);
                },
                Some(Err(e)) => {
                    assert(merged =~= seen.push(Err(e.kind)));
                    return Err(e);
                },
                Some(Ok(item)) => {
                    proof {
                        assert(seen.push(before[0]) + it.pending() =~= seen + before);
                        seen = seen.push(before[0]);
                    }
                    all.push(item);
                },
            }
        }
    }

    /// Starts reading the soundings of the file from the first one.
    pub fn into_iter(&'a self) -> (it: SoundingIterator<'a>)
        ensures
            it.pending() == self@.merged(),
            it.source() == self.source(),
    {
        SoundingIterator {
            upper_air_it: self.upper_air.into_iter(),
            surface_it: self.surface.into_iter(),
            source_name: self.file_name,
            finished: false,
        }
    }
}

impl<'a> SoundingIterator<'a> {
    /// The name of the file that the soundings come from.
    pub closed spec fn source(&self) -> Seq<char> {
        self.source_name@
    }

    /// The upper-air records that are left to read.
    pub closed spec fn upper_air_pending(&self) -> Seq<Result<UpperAirView, ErrorKind>> {
        self.upper_air_it.pending()
    }

    /// The surface records that are left to read.
    pub closed spec fn surface_pending(&self) -> Seq<SurfaceData> {
        self.surface_it.pending()
    }

    /// How much text is left to read, in both sections together.
    pub closed spec fn text_left(&self) -> nat {
        self.upper_air_it.text().len() + self.surface_it.text().len()
    }

    /// Whether the reading has come to its end or to an error.
    pub closed spec fn is_finished(&self) -> bool {
        self.finished
    }

    /// The pairs of records that are left to come.
    pub open spec fn pending(&self) -> Seq<Result<(UpperAirView, SurfaceData), ErrorKind>> {
        if self.is_finished() {
            Seq::empty()
        } else {
            merged_stream(self.upper_air_pending(), self.surface_pending())
        }
    }

    /// Reads the next sounding: the next upper-air record and surface record
    /// of one valid time, joined.
    ///
    /// Records of a valid time that the other section lacks are passed over.
    /// Gives nothing when a section has no record left for the other, and the
    /// error of an upper-air record that fails where the reading comes to it.
    /// After either, every later call gives nothing.
    pub fn next(&mut self) -> (r: Option<
        Result<(Sounding, HashMap<u64, Decimal>), BufkitFileError>,
    >)
        ensures
            final(self).source() == old(self).source(),
            final(self).text_left() <= old(self).text_left(),
            match r {
                None => old(self).pending().len() == 0 && final(self).pending().len() == 0,
                Some(Ok(item)) => {
                    &&& old(self).pending().len() > 0
                    &&& old(self).pending()[0] is Ok
                    &&& old(self).pending() == seq![old(self).pending()[0]] + final(self).pending()
                    &&& item.0@ == sounding_of(
                        old(self).pending()[0]->Ok_0.0,
                        old(self).pending()[0]->Ok_0.1,
                        old(self).source(),
                    )
                    &&& item.1@ == analysis_of(
                        old(self).pending()[0]->Ok_0.0.indexes,
                        old(self).pending()[0]->Ok_0.1,
                    )
                    &&& final(self).text_left() < old(self).text_left()
                },
                Some(Err(e)) => old(self).pending() == seq![
                    Err::<(UpperAirView, SurfaceData), ErrorKind>(e.kind),
                ] && final(self).pending().len() == 0,
            },
    {
        if self.finished {
            return None;
        }
        let mut next_ua = match self.upper_air_it.next() {
            None => {
                self.finished = true;
                return None;
            },
            Some(Err(e)) => {
                self.finished = true;
                return Some(Err(e));
            },
            Some(Ok(ua)) => ua,
        };
        let mut next_sd = match self.surface_it.next() {
            None => {
                self.finished = true;
                return None;
            },
            Some(sd) => sd,
        };
        loop
            invariant
                !self.is_finished(),
                !old(self).is_finished(),
                self.source() == old(self).source(),
                self.text_left() < old(self).text_left(),
                old(self).pending() == merged_stream(
                    seq![Ok::<UpperAirView, ErrorKind>(next_ua@)] + self.upper_air_pending(),
                    seq![next_sd] + self.surface_pending(),
                ),
            decreases self.text_left(),
        {
            let ghost ua_all = seq![Ok::<UpperAirView, ErrorKind>(next_ua@)]
                + self.upper_air_pending();
            let ghost sd_all = seq![next_sd] + self.surface_pending();
            proof {
                assert(ua_all.drop_first() =~= self.upper_air_pending());
                assert(sd_all.drop_first() =~= self.surface_pending());
            }
            if next_sd.valid_time.is_before(&next_ua.valid_time) {
                assert(merged_stream(ua_all, sd_all) == merged_stream(ua_all, sd_all.drop_first()));
                next_sd = match self.surface_it.next() {
                    None => {
                        assert(merged_stream(ua_all, sd_all.drop_first()).len() == 0);
                        self.finished = true;
                        return None;
                    },
                    Some(sd) => sd,
                };
            } else if next_ua.valid_time.is_before(&next_sd.valid_time) {
                assert(merged_stream(ua_all, sd_all) == merged_stream(ua_all.drop_first(), sd_all));
                next_ua = match self.upper_air_it.next() {
                    None => {
                        assert(merged_stream(ua_all.drop_first(), sd_all).len() == 0);
                        self.finished = true;
                        return None;
                    },
                    Some(Err(e)) => {
                        assert(merged_stream(ua_all.drop_first(), sd_all) == seq![
                            Err::<(UpperAirView, SurfaceData), ErrorKind>(e.kind),
                        ]);
                        self.finished = true;
                        return Some(Err(e));
                    },
                    Some(Ok(ua)) => ua,
                };
            } else {
                assert(merged_stream(ua_all, sd_all) == seq![
                    Ok::<(UpperAirView, SurfaceData), ErrorKind>((next_ua@, next_sd)),
                ] + merged_stream(ua_all.drop_first(), sd_all.drop_first()));
                return Some(Ok(combine_data(next_ua, next_sd, self.source_name)));
            }
        }
    }
}

} // verus!
