//! The text of the upper-air section and the soundings that it holds.
use vstd::prelude::*;
use vstd::string::StringSliceAdditionalSpecFns;

use crate::bufkit_data::upper_air::{upper_air_of, UpperAir, UpperAirView};
use crate::error::{BufkitFileError, ErrorKind};
use crate::text::{find_key, first_occurrence, lemma_first_occurrence};

verus! {

/// The key that every upper-air record begins with.
pub open spec fn record_key() -> Seq<u8> {
    "STID".spec_bytes()
}

/// The record key has four bytes.
pub proof fn lemma_record_key_len()
    ensures
        record_key().len() == 4,
{
    reveal_strlit("STID");
    vstd::string::is_ascii_spec_bytes("STID");
}

/// The text of the next record in `s`, and the text after it. A record begins
/// at the first record key and ends before the next one, or at the end of
/// `s`. Without a record key `s` holds no record.
pub open spec fn next_chunk(s: Seq<u8>) -> Option<(Seq<u8>, Seq<u8>)> {
    match first_occurrence(s, record_key()) {
        None => None,
        Some(a) => {
            let body = a + record_key().len();
            match first_occurrence(s.subrange(body, s.len() as int), record_key()) {
                Some(e) => Some((s.subrange(a, body + e), s.subrange(body + e, s.len() as int))),
                None => Some((s.subrange(a, s.len() as int), Seq::empty())),
            }
        },
    }
}

/// The sounding that the record text `chunk` gives, held to the rule that its
/// profile is consistent.
pub open spec fn validated_upper_air_of(chunk: Seq<u8>) -> Result<UpperAirView, ErrorKind> {
    match upper_air_of(chunk) {
        Ok(ua) => if ua.profile.is_consistent() {
            Ok(ua)
        } else {
            Err(ErrorKind::InconsistentProfileLength)
        },
        Err(kind) => Err(kind),
    }
}

/// What reading the upper-air text `s` record by record gives: the soundings
/// in order, up to the end of the text or up to the first record that fails,
/// whose error is then the last entry.
#[verifier::opaque]
pub open spec fn upper_air_stream(s: Seq<u8>) -> Seq<Result<UpperAirView, ErrorKind>>
    decreases s.len(),
    via upper_air_stream_decreases
{
    match next_chunk(s) {
        None => Seq::empty(),
        Some((chunk, rest)) => match validated_upper_air_of(chunk) {
            Ok(ua) => seq![Ok(ua)] + upper_air_stream(rest),
            Err(kind) => seq![Err(kind)],
        },
    }
}

#[via_fn]
proof fn upper_air_stream_decreases(s: Seq<u8>) {
    if next_chunk(s) is Some {
        lemma_next_chunk(s);
    }
}

/// The text after a record is shorter than the text with it.
pub proof fn lemma_next_chunk(s: Seq<u8>)
    requires
        next_chunk(s) is Some,
    ensures
        ({
            let (chunk, rest) = next_chunk(s)->Some_0;
            rest.len() < s.len()
        }),
{
    lemma_record_key_len();
    lemma_first_occurrence(s, record_key(), 0);
    let a = first_occurrence(s, record_key())->Some_0;
    let body = a + 4;
    lemma_first_occurrence(s.subrange(body, s.len() as int), record_key(), 0);
}

/// A text without bytes holds no record.
pub proof fn lemma_empty_stream()
    ensures
        upper_air_stream(Seq::empty()).len() == 0,
{
    reveal(upper_air_stream);
    lemma_record_key_len();
    lemma_first_occurrence(Seq::empty(), record_key(), 0);
}

/// A record that fails ends the reading: an error is the last entry of the
/// stream, so that no record after it is given. And every sounding that is
/// given has a consistent profile: a pressure for one level at least, and
/// every other column empty or as long as the pressure.
pub proof fn lemma_upper_air_stream(s: Seq<u8>)
    ensures
        forall|i: int|
            0 <= i < upper_air_stream(s).len() && (#[trigger] upper_air_stream(s)[i]) is Err ==> i
                == upper_air_stream(s).len() - 1,
        forall|i: int|
            0 <= i < upper_air_stream(s).len() && (#[trigger] upper_air_stream(s)[i]) is Ok
                ==> upper_air_stream(s)[i]->Ok_0.profile.is_consistent(),
    decreases s.len(),
{
    reveal(upper_air_stream);
    if next_chunk(s) is Some {
        let (chunk, rest) = next_chunk(s)->Some_0;
        lemma_next_chunk(s);
        if validated_upper_air_of(chunk) is Ok {
            lemma_upper_air_stream(rest);
            let all = upper_air_stream(s);
            let tail = upper_air_stream(rest);
            assert(all == seq![Ok::<UpperAirView, ErrorKind>(validated_upper_air_of(chunk)->Ok_0)]
                + tail);
            assert forall|i: int| 1 <= i < all.len() implies all[i] == tail[i - 1] by {}
        }
    }
}

/// The upper-air section of a BUFKIT file.
pub struct UpperAirSection<'a> {
    raw_text: &'a [u8],
}

/// Reads the soundings of an upper-air section one at a time. The first
/// record that fails ends the reading.
pub struct UpperAirIterator<'a> {
    remaining: &'a [u8],
}

impl<'a> UpperAirSection<'a> {
    /// The text of the section.
    pub closed spec fn text(&self) -> Seq<u8> {
        self.raw_text@
    }

    /// Creates the section from its text.
    pub fn new(text: &'a [u8]) -> (r: UpperAirSection<'a>)
        ensures
            r.text() == text@,
    {
        UpperAirSection { raw_text: text }
    }

    /// Starts reading the section from its beginning.
    pub fn into_iter(&self) -> (it: UpperAirIterator<'a>)
        ensures
            it.text() == self.text(),
    {
        UpperAirIterator { remaining: self.raw_text }
    }

    /// Validates the section: succeeds exactly when every record of it parses
    /// and is consistent, and fails with the error of the first record that
    /// does not.
    pub fn validate_section(&self) -> (r: Result<(), BufkitFileError>)
        ensures
            match r {
                Ok(_) => forall|i: int|
                    0 <= i < upper_air_stream(self.text()).len() ==> (#[trigger] upper_air_stream(
                        self.text(),
                    )[i]) is Ok,
                Err(e) => upper_air_stream(self.text()).len() > 0 && upper_air_stream(
                    self.text(),
                ).last() == Err::<UpperAirView, ErrorKind>(e.kind),
            },
    {
        let mut iter = self.into_iter();
        let ghost all = upper_air_stream(self.text());
        let ghost mut seen: Seq<Result<UpperAirView, ErrorKind>> = Seq::empty();
        assert(seen + iter.pending() =~= all);
        loop
            invariant
                all == upper_air_stream(self.text()),
                all == seen + iter.pending(),
                forall|i: int| 0 <= i < seen.len() ==> (#[trigger] seen[i]) is Ok,
            decreases iter.text().len(),
        {
            let ghost before = iter.pending();
            match iter.next() {
                None => {
                    assert(all =~= seen);
                    return Ok(());
                },
                Some(Ok(ua)) => {
                    proof {
                        assert(seen.push(Ok(ua@)) + iter.pending() =~= seen + before);
                        seen = seen.push(Ok(ua@));
                    }
                },
                Some(Err(e)) => {
                    assert(all =~= seen.push(Err(e.kind)));
                    return Err(e);
                },
            }
        }
    }
}

impl<'a> UpperAirIterator<'a> {
    /// The text that is left to read.
    pub closed spec fn text(&self) -> Seq<u8> {
        self.remaining@
    }

    /// What is left to come: the soundings of the text that is left, and the
    /// error that ends them, if there is one.
    pub open spec fn pending(&self) -> Seq<Result<UpperAirView, ErrorKind>> {
        upper_air_stream(self.text())
    }

    /// Takes the text of the next record off the text that is left.
    pub fn get_next_chunk(&mut self) -> (r: Option<&'a [u8]>)
        ensures
            match next_chunk(old(self).text()) {
                None => r is None && final(self).text() == old(self).text(),
                Some((chunk, rest)) => r is Some && r->Some_0@ == chunk && final(self).text()
                    == rest && rest.len() < old(self).text().len(),
            },
    {
        let text: &'a [u8] = self.remaining;
        let n: usize = text.len();
        let key = "STID".as_bytes();
        proof {
            lemma_record_key_len();
            lemma_first_occurrence(text@, record_key(), 0);
        }
        let a: usize = match find_key(text, key) {
            None => {
                return None;
            },
            Some(a) => a,
        };
        let body: usize = a + key.len();
        let after = vstd::slice::slice_subrange(text, body, n);
        proof {
            lemma_first_occurrence(after@, record_key(), 0);
        }
        match find_key(after, key) {
            Some(e) => {
                self.remaining = vstd::slice::slice_subrange(text, body + e, n);
                Some(vstd::slice::slice_subrange(text, a, body + e))
            },
            None => {
                self.remaining = vstd::slice::slice_subrange(text, n, n);
                assert(text@.subrange(n as int, n as int) =~= Seq::<u8>::empty());
                Some(vstd::slice::slice_subrange(text, a, n))
            },
        }
    }

    /// Reads the next sounding.
    ///
    /// Gives nothing when no record is left. A record that does not parse, or
    /// whose profile is not consistent, gives its error, and nothing is left
    /// to read after it.
    pub fn next(&mut self) -> (r: Option<Result<UpperAir, BufkitFileError>>)
        ensures
            match r {
                None => old(self).pending().len() == 0 && final(self).text() == old(self).text(),
                Some(Ok(ua)) => old(self).pending() == seq![
                    Ok::<UpperAirView, ErrorKind>(ua@),
                ] + final(self).pending() && ua@.profile.is_consistent() && ua.valid_time.wf(),
                Some(Err(e)) => old(self).pending() == seq![
                    Err::<UpperAirView, ErrorKind>(e.kind),
                ] && final(self).pending().len() == 0,
            },
            final(self).text().len() <= old(self).text().len(),
            r is Some ==> final(self).text().len() < old(self).text().len(),
    {
        proof {
            reveal(upper_air_stream);
        }
        let chunk = match self.get_next_chunk() {
            None => {
                return None;
            },
            Some(chunk) => chunk,
        };
        let parsed = match UpperAir::parse(chunk) {
            Ok(ua) => match ua.validate() {
                Ok(_) => Ok(ua),
                Err(e) => Err(e),
            },
            Err(e) => Err(e),
        };
        match parsed {
            Ok(ua) => Some(Ok(ua)),
            Err(e) => {
                let n: usize = self.remaining.len();
                self.remaining = vstd::slice::slice_subrange(self.remaining, n, n);
                proof {
                    assert(self.remaining@ =~= Seq::<u8>::empty());
                    lemma_empty_stream();
                }
                Some(Err(e))
            },
        }
    }
}

} // verus!
