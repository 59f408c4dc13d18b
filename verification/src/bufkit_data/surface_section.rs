//! The text of the surface section and the rows that it holds.
use vstd::prelude::*;

use crate::bufkit_data::surface::{
    sfc_layout_of, surface_row_of, SfcColName, SfcColumns, SurfaceData,
};
use crate::error::{BufkitFileError, ErrorKind};
use crate::parse_util::{find_next_n_tokens, next_n_tokens};
use crate::text::{is_digit, is_space, trim, trimmed};

verus! {

/// Whether the rows of a surface section begin at offset `i` of `s`: a digit
/// stands there, right after white space.
pub open spec fn is_row_start(s: Seq<u8>, i: int) -> bool {
    0 < i < s.len() && is_space(s[i - 1]) && is_digit(s[i])
}

/// The first offset at or after `i` where the rows begin.
pub open spec fn row_start_from(s: Seq<u8>, i: int) -> Option<int>
    decreases s.len() - i,
{
    if i >= s.len() {
        None
    } else if is_row_start(s, i) {
        Some(i)
    } else {
        row_start_from(s, i + 1)
    }
}

/// The layout and the rows of the surface section `s`: the header runs up to
/// the first digit that follows white space, and the rows are the rest, both
/// without the white space at their ends.
pub open spec fn surface_section_of(s: Seq<u8>) -> Result<(Seq<SfcColName>, Seq<u8>), ErrorKind> {
    match row_start_from(s, 0) {
        None => Err(ErrorKind::SectionBoundaryNotFound),
        Some(e) => match sfc_layout_of(trimmed(s.subrange(0, e))) {
            Err(kind) => Err(kind),
            Ok(names) => Ok((names, trimmed(s.subrange(e, s.len() as int)))),
        },
    }
}

/// The first failure that a strict reading of the rows `s` meets, if any: a
/// text that ends inside a row, or a row that does not decode.
pub open spec fn surface_fault(s: Seq<u8>, names: Seq<SfcColName>) -> Option<ErrorKind>
    decreases s.len(),
{
    match next_n_tokens(s, names.len()) {
        Err(e) => Some(e.kind),
        Ok(None) => None,
        Ok(Some(e)) => if 0 < e <= s.len() {
            match surface_row_of(s.subrange(0, e), names) {
                Err(kind) => Some(kind),
                Ok(_) => surface_fault(s.subrange(e, s.len() as int), names),
            }
        } else {
            None
        },
    }
}

/// The surface data that a lenient reading of the rows `s` gives, in order:
/// a row that does not decode is passed over, and the reading ends where no
/// whole row is left.
#[verifier::opaque]
pub open spec fn surface_stream(s: Seq<u8>, names: Seq<SfcColName>) -> Seq<SurfaceData>
    decreases s.len(),
{
    match next_n_tokens(s, names.len()) {
        Ok(Some(e)) => if 0 < e <= s.len() {
            let rest = surface_stream(s.subrange(e, s.len() as int), names);
            match surface_row_of(s.subrange(0, e), names) {
                Ok(sd) => seq![sd] + rest,
                Err(_) => rest,
            }
        } else {
            Seq::empty()
        },
        _ => Seq::empty(),
    }
}

/// A row that does not decode is passed over: the reading goes on with the
/// row after it, and where that row decodes, it is the first that is given.
pub proof fn lemma_bad_row_is_skipped(s: Seq<u8>, names: Seq<SfcColName>, e: int)
    requires
        next_n_tokens(s, names.len()) == Ok::<Option<int>, BufkitFileError>(Some(e)),
        0 < e <= s.len(),
        surface_row_of(s.subrange(0, e), names) is Err,
    ensures
        surface_stream(s, names) == surface_stream(s.subrange(e, s.len() as int), names),
        ({
            let rest = s.subrange(e, s.len() as int);
            match next_n_tokens(rest, names.len()) {
                Ok(Some(e2)) => 0 < e2 <= rest.len() ==> match surface_row_of(
                    rest.subrange(0, e2),
                    names,
                ) {
                    Ok(sd) => surface_stream(s, names).len() > 0 && surface_stream(s, names)[0]
                        == sd,
                    Err(_) => true,
                },
                _ => surface_stream(s, names).len() == 0,
            }
        }),
{
    reveal_with_fuel(surface_stream, 3);
}

/// Whether the rows begin at offset `i` of `text`.
fn starts_row(text: &[u8], i: usize) -> (r: bool)
    requires
        i < text@.len(),
    ensures
        r == is_row_start(text@, i as int),
{
    i > 0 && is_space(text[i - 1]) && is_digit(text[i])
}

/// The surface section of a BUFKIT file: the layout of its table, and the
/// text of its rows.
pub struct SurfaceSection<'a> {
    raw_text: &'a [u8],
    columns: SfcColumns,
}

/// Reads the rows of a surface section one at a time. A row that does not
/// decode is passed over.
pub struct SurfaceIterator<'a> {
    remaining: &'a [u8],
    columns: &'a SfcColumns,
}

impl<'a> SurfaceSection<'a> {
    /// The text of the rows.
    pub closed spec fn text(&self) -> Seq<u8> {
        self.raw_text@
    }

    /// The names of the columns.
    pub closed spec fn names(&self) -> Seq<SfcColName> {
        self.columns.names@
    }

    /// Creates the surface section from its text, which begins with the
    /// header of the table.
    ///
    /// Fails with `SectionBoundaryNotFound` where no row follows the header,
    /// and with `MissingRequiredColumn` where the header lacks the station
    /// number or the valid time.
    pub fn new(text: &'a [u8]) -> (r: Result<SurfaceSection<'a>, BufkitFileError>)
        ensures
            match surface_section_of(text@) {
                Ok((names, rows)) => r is Ok && r->Ok_0.names() == names && r->Ok_0.text() == rows,
                Err(kind) => r is Err && r->Err_0.kind == kind,
            },
    {
        let n: usize = text.len();
        let mut header_end: usize = 0;
        while header_end < n && !starts_row(text, header_end)
            invariant
                header_end <= n,
                n == text@.len(),
                row_start_from(text@, 0) == row_start_from(text@, header_end as int),
            decreases n - header_end,
        {
            header_end += 1;
        }
        if header_end == n {
            return Err(BufkitFileError::new(ErrorKind::SectionBoundaryNotFound));
        }
        let header = trim(vstd::slice::slice_subrange(text, 0, header_end));
        let cols = match SurfaceData::parse_columns(header) {
            Ok(cols) => cols,
            Err(e) => {
                return Err(e);
            },
        };
        Ok(
            SurfaceSection {
                raw_text: trim(vstd::slice::slice_subrange(text, header_end, n)),
                columns: cols,
            },
        )
    }

    /// Starts reading the rows from the first one.
    pub fn into_iter(&'a self) -> (it: SurfaceIterator<'a>)
        ensures
            it.text() == self.text(),
            it.names() == self.names(),
    {
        SurfaceIterator { remaining: self.raw_text, columns: &self.columns }
    }

    /// Validates the surface section with a strict reading: succeeds exactly
    /// when the text is made of whole rows that all decode, and fails with the
    /// first failure otherwise.
    pub fn validate_section(&self) -> (r: Result<(), BufkitFileError>)
        ensures
            match surface_fault(self.text(), self.names()) {
                None => r is Ok,
                Some(kind) => r is Err && r->Err_0.kind == kind,
            },
    {
        let mut iter = self.into_iter();
        loop
            invariant
                iter.names() == self.names(),
                surface_fault(self.text(), self.names()) == surface_fault(
                    iter.text(),
                    iter.names(),
                ),
            decreases iter.text().len(),
        {
            let chunk = match iter.get_next_chunk() {
                Err(e) => {
                    return Err(e);
                },
                Ok(None) => {
                    return Ok(());
                },
                Ok(Some(chunk)) => chunk,
            };
            if chunk.len() == 0 {
                return Ok(());
            }
            match SurfaceData::parse_values(chunk, iter.columns) {
                Ok(_) => {},
                Err(e) => {
                    return Err(e);
                },
            }
        }
    }
}

impl<'a> SurfaceIterator<'a> {
    /// The text that is left to read.
    pub closed spec fn text(&self) -> Seq<u8> {
        self.remaining@
    }

    /// The names of the columns.
    pub closed spec fn names(&self) -> Seq<SfcColName> {
        self.columns.names@
    }

    /// The surface data that is left to come.
    pub open spec fn pending(&self) -> Seq<SurfaceData> {
        surface_stream(self.text(), self.names())
    }

    /// Takes the text of the next row off the text that is left: as many
    /// tokens as the layout has columns.
    ///
    /// Gives nothing where no token is left, and fails with `TokenCountError`
    /// where tokens are left but too few for a row; in both cases the text
    /// that is left stays as it is.
    pub fn get_next_chunk(&mut self) -> (r: Result<Option<&'a [u8]>, BufkitFileError>)
        ensures
            final(self).names() == old(self).names(),
            match next_n_tokens(old(self).text(), old(self).names().len()) {
                Ok(Some(e)) => r is Ok && r->Ok_0 is Some && 0 <= e <= old(self).text().len()
                    && r->Ok_0->Some_0@ == old(self).text().subrange(0, e) && final(self).text()
                    == old(self).text().subrange(e, old(self).text().len() as int),
                Ok(None) => r is Ok && r->Ok_0 is None && final(self).text() == old(self).text(),
                Err(e) => r == Err::<Option<&'a [u8]>, BufkitFileError>(e) && final(self).text()
                    == old(self).text(),
            },
    {
        let text: &'a [u8] = self.remaining;
        match find_next_n_tokens(text, self.columns.num_cols()) {
            Ok(Some(brk)) => {
                self.remaining = vstd::slice::slice_subrange(text, brk, text.len());
                Ok(Some(vstd::slice::slice_subrange(text, 0, brk)))
            },
            Ok(None) => Ok(None),
            Err(e) => Err(e),
        }
    }

    /// Reads the next row that decodes, passing over the rows before it that
    /// do not. Gives nothing when no whole row is left.
    pub fn next(&mut self) -> (r: Option<SurfaceData>)
        ensures
            final(self).names() == old(self).names(),
            final(self).text().len() <= old(self).text().len(),
            match r {
                Some(sd) => {
                    &&& old(self).pending() == seq![sd] + final(self).pending()
                    &&& final(self).text().len() < old(self).text().len()
                },
                None => old(self).pending().len() == 0 && final(self).pending().len() == 0,
            },
    {
        loop
            invariant
                self.names() == old(self).names(),
                self.text().len() <= old(self).text().len(),
                self.pending() == old(self).pending(),
            decreases self.text().len(),
        {
            proof {
                reveal(surface_stream);
            }
            let ghost before = self.text();
            let chunk = match self.get_next_chunk() {
                Ok(Some(chunk)) => chunk,
                _ => {
                    return None;
                },
            };
            if chunk.len() == 0 {
                assert(self.text() =~= before);
                return None;
            }
            match SurfaceData::parse_values(chunk, self.columns) {
                Ok(sd) => {
                    return Some(sd);
                },
                Err(_) => {},
            }
        }
    }
}

} // verus!
