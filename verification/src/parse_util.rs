//! The scans that carve a BUFKIT text into sections, rows and values.
use vstd::prelude::*;

use crate::error::{BufkitFileError, ErrorKind};
use crate::number::{
    decimal_of_token, i32_of_token, parse_i32_token, Decimal, DOT, MINUS, MISSING_I32,
};
use crate::text::{
    find_key, first_from, first_occurrence, is_alphanumeric, is_digit, is_space,
    lemma_first_from_is, lemma_trimmed_solid, trim, trimmed, NEWLINE,
};
use crate::valid_time::ValidTime;

verus! {

/// Whether no byte of `s` from `lo` up to, not including, `hi` is a letter or
/// a digit.
pub open spec fn no_alphanumeric(s: Seq<u8>, lo: int, hi: int) -> bool {
    forall|k: int| lo <= k < hi ==> !is_alphanumeric(#[trigger] s[k])
}

/// Whether the line feed at `i` opens a run without letters and digits that
/// reaches up to `j`.
pub open spec fn opens_blank_run(s: Seq<u8>, i: int, j: int) -> bool {
    0 <= i < j && s[i] == NEWLINE && no_alphanumeric(s, i + 1, j)
}

/// Whether the byte at `j` is a line feed that ends a line without letters and
/// digits: an earlier line feed exists with no letter or digit in between.
pub open spec fn closes_blank_line(s: Seq<u8>, j: int) -> bool {
    &&& 0 <= j < s.len()
    &&& s[j] == NEWLINE
    &&& exists|i: int| opens_blank_run(s, i, j)
}

/// Whether `e` is the offset just past the first blank line of `s`.
pub open spec fn is_section_boundary(s: Seq<u8>, e: int) -> bool {
    &&& 0 < e <= s.len()
    &&& closes_blank_line(s, e - 1)
    &&& forall|j: int| 0 <= j < e - 1 ==> !closes_blank_line(s, j)
}

/// Whether `s` has no blank line.
pub open spec fn has_no_section_boundary(s: Seq<u8>) -> bool {
    forall|j: int| 0 <= j < s.len() ==> !closes_blank_line(s, j)
}

/// The offset just past the first blank line of `s`.
pub open spec fn section_boundary(s: Seq<u8>) -> Option<int> {
    if exists|e: int| is_section_boundary(s, e) {
        Some(choose|e: int| is_section_boundary(s, e))
    } else {
        None
    }
}

/// A text has at most one section boundary.
pub proof fn lemma_section_boundary_unique(s: Seq<u8>, e1: int, e2: int)
    requires
        is_section_boundary(s, e1),
        is_section_boundary(s, e2),
    ensures
        e1 == e2,
{
    if e1 < e2 {
        assert(!closes_blank_line(s, e1 - 1));
    } else if e2 < e1 {
        assert(!closes_blank_line(s, e2 - 1));
    }
}

/// Finds the first blank line, that is a line without an ASCII letter or
/// digit, and gives the offset just past the line feed that ends it. Where
/// the text ends with that line feed, the offset is the length of the text.
///
/// Nothing is found when the text has no such line.
pub fn find_blank_line(src: &[u8]) -> (r: Option<usize>)
    ensures
        match r {
            Some(e) => section_boundary(src@) == Some(e as int) && is_section_boundary(
                src@,
                e as int,
            ),
            None => section_boundary(src@) is None && has_no_section_boundary(src@),
        },
{
    let n: usize = src.len();
    let mut first_newline: bool = false;
    let ghost mut opened: int = 0;
    let mut i: usize = 0;
    while i < n
        invariant
            i <= n,
            n == src@.len(),
            forall|j: int| 0 <= j < i ==> !closes_blank_line(src@, j),
            first_newline ==> opens_blank_run(src@, opened, i as int),
            !first_newline ==> forall|p: int| !opens_blank_run(src@, p, i as int),
        decreases n - i,
    {
        let c: u8 = src[i];
        if c == NEWLINE && !first_newline {
            first_newline = true;
            proof {
                opened = i as int;
            }
        } else if is_alphanumeric(c) {
            first_newline = false;
        } else if c == NEWLINE && first_newline {
            proof {
                assert(closes_blank_line(src@, i as int));
                assert(is_section_boundary(src@, i + 1));
                let e = choose|e: int| is_section_boundary(src@, e);
                lemma_section_boundary_unique(src@, e, i + 1);
            }
            return Some(i + 1);
        }
        proof {
            if !first_newline {
                assert forall|p: int| !(#[trigger] opens_blank_run(src@, p, i + 1)) by {
                    if opens_blank_run(src@, p, i + 1) && p < i {
                        assert(!is_alphanumeric(src@[i as int]));
                        assert(opens_blank_run(src@, p, i as int));
                    }
                }
            }
        }
        i += 1;
    }
    proof {
        assert forall|e: int| !is_section_boundary(src@, e) by {
            if is_section_boundary(src@, e) {
                assert(!closes_blank_line(src@, e - 1));
            }
        }
    }
    None
}

/// Whether a token of `s` ends just before offset `e`: the byte before `e` is
/// no white space, and `e` is the end of `s` or holds white space.
pub open spec fn is_token_end(s: Seq<u8>, e: int) -> bool {
    0 < e <= s.len() && !is_space(s[e - 1]) && (e == s.len() || is_space(s[e]))
}

/// The number of tokens of `s` that end at or before offset `upto`.
pub open spec fn token_ends(s: Seq<u8>, upto: int) -> nat
    decreases upto,
{
    if upto <= 0 {
        0
    } else {
        token_ends(s, upto - 1) + if is_token_end(s, upto) {
            1nat
        } else {
            0nat
        }
    }
}

/// The number of white space delimited tokens in `s`.
pub open spec fn token_count(s: Seq<u8>) -> nat {
    token_ends(s, s.len() as int)
}

/// Whether the `n`-th token of `s`, counted from one, ends just before `e`.
pub open spec fn is_nth_token_end(s: Seq<u8>, n: nat, e: int) -> bool {
    is_token_end(s, e) && token_ends(s, e) == n
}

/// The offset just past the `n`-th token of `s`, counted from one.
pub open spec fn nth_token_end(s: Seq<u8>, n: nat) -> int {
    choose|e: int| is_nth_token_end(s, n, e)
}

/// Where the first `n` tokens of `s` end: nothing where `s` holds no token,
/// an error where it holds some but fewer than `n`.
pub open spec fn next_n_tokens(s: Seq<u8>, n: nat) -> Result<Option<int>, BufkitFileError> {
    if token_count(s) == 0 {
        Ok(None)
    } else if n == 0 {
        Ok(Some(0))
    } else if token_count(s) < n {
        Err(BufkitFileError { kind: ErrorKind::TokenCountError })
    } else {
        Ok(Some(nth_token_end(s, n)))
    }
}

/// Counting token ends up to a later offset never gives less.
pub proof fn lemma_token_ends_monotonic(s: Seq<u8>, a: int, b: int)
    requires
        a <= b,
    ensures
        token_ends(s, a) <= token_ends(s, b),
    decreases b - a,
{
    if a < b {
        lemma_token_ends_monotonic(s, a, b - 1);
    }
}

/// The `n`-th token has one end only.
pub proof fn lemma_nth_token_end_unique(s: Seq<u8>, n: nat, e1: int, e2: int)
    requires
        is_nth_token_end(s, n, e1),
        is_nth_token_end(s, n, e2),
    ensures
        e1 == e2,
{
    if e1 < e2 {
        lemma_token_ends_monotonic(s, e1, e2 - 1);
    } else if e2 < e1 {
        lemma_token_ends_monotonic(s, e2, e1 - 1);
    }
}

/// As long as `n` tokens end at or before an offset, the `n`-th token ends
/// somewhere before it.
pub proof fn lemma_nth_token_end_exists(s: Seq<u8>, n: nat, upto: int)
    requires
        1 <= n <= token_ends(s, upto),
    ensures
        exists|e: int| e <= upto && is_nth_token_end(s, n, e),
    decreases upto,
{
    if upto > 0 {
        if token_ends(s, upto - 1) >= n {
            lemma_nth_token_end_exists(s, n, upto - 1);
            let e = choose|e: int| e <= upto - 1 && is_nth_token_end(s, n, e);
            assert(e <= upto && is_nth_token_end(s, n, e));
        } else {
            assert(is_nth_token_end(s, n, upto));
        }
    }
}

/// Where the first `n` tokens of a text are found, the `n`-th token ends at
/// the offset that is given.
pub proof fn lemma_next_n_tokens_found(s: Seq<u8>, n: nat, e: int)
    requires
        n > 0,
        next_n_tokens(s, n) == Ok::<Option<int>, BufkitFileError>(Some(e)),
    ensures
        is_nth_token_end(s, n, e),
        0 < e <= s.len(),
{
    lemma_nth_token_end_exists(s, n, s.len() as int);
}

/// The tokens that end in a text up to an offset are those that end up to a
/// cut before it, and those that end in the text after the cut.
pub proof fn lemma_token_ends_split(s: Seq<u8>, c: int, e: int)
    requires
        0 <= c,
        0 <= e,
        c + e <= s.len(),
    ensures
        token_ends(s, c + e) == token_ends(s, c) + token_ends(s.subrange(c, s.len() as int), e),
    decreases e,
{
    if e > 0 {
        lemma_token_ends_split(s, c, e - 1);
        let rest = s.subrange(c, s.len() as int);
        assert(rest[e - 1] == s[c + e - 1]);
        if c + e < s.len() {
            assert(rest[e] == s[c + e]);
        }
        assert(is_token_end(rest, e) == is_token_end(s, c + e));
    }
}

/// The first `k` chunks of `n` tokens each that are cut off `s` one after
/// another, each from what the one before left; nothing where `s` does not
/// hold that many.
pub open spec fn chunks(s: Seq<u8>, n: nat, k: nat) -> Option<Seq<Seq<u8>>>
    decreases k,
{
    if k == 0 {
        Some(Seq::empty())
    } else {
        match next_n_tokens(s, n) {
            Ok(Some(e)) => if 0 <= e <= s.len() {
                match chunks(s.subrange(e, s.len() as int), n, (k - 1) as nat) {
                    Some(rest) => Some(seq![s.subrange(0, e)] + rest),
                    None => None,
                }
            } else {
                None
            },
            _ => None,
        }
    }
}

/// The texts `cs` written one after another.
pub open spec fn joined(cs: Seq<Seq<u8>>) -> Seq<u8>
    decreases cs.len(),
{
    if cs.len() == 0 {
        Seq::empty()
    } else {
        cs[0] + joined(cs.drop_first())
    }
}

/// The chunks that are cut off a text one after another, written one after
/// another again, are the text up to the end of the last chunk, and that
/// much of the text holds `n` tokens for each chunk.
pub proof fn lemma_chunks_rebuild_prefix(s: Seq<u8>, n: nat, k: nat)
    requires
        chunks(s, n, k) is Some,
    ensures
        joined(chunks(s, n, k)->Some_0).len() <= s.len(),
        joined(chunks(s, n, k)->Some_0) == s.subrange(
            0,
            joined(chunks(s, n, k)->Some_0).len() as int,
        ),
        token_ends(s, joined(chunks(s, n, k)->Some_0).len() as int) == k * n,
    decreases k,
{
    let cs = chunks(s, n, k)->Some_0;
    if k == 0 {
        assert(joined(cs) =~= s.subrange(0, 0));
        assert(0 * n == 0) by (nonlinear_arith);
    } else {
        let e = next_n_tokens(s, n)->Ok_0->Some_0;
        let after = s.subrange(e, s.len() as int);
        let rest = chunks(after, n, (k - 1) as nat)->Some_0;
        if n > 0 {
            lemma_next_n_tokens_found(s, n, e);
        }
        lemma_chunks_rebuild_prefix(after, n, (k - 1) as nat);
        assert(cs == seq![s.subrange(0, e)] + rest);
        assert(cs[0] == s.subrange(0, e));
        assert(cs.drop_first() =~= rest);
        let tail = joined(rest);
        assert(joined(cs) == s.subrange(0, e) + tail);
        assert(joined(cs) =~= s.subrange(0, e + tail.len()));
        lemma_token_ends_split(s, e, tail.len() as int);
        assert(n + (k - 1) * n == k * n) by (nonlinear_arith);
    }
}

/// Finds the end of the first `n` white space delimited tokens of `src`.
///
/// Gives the offset just past the `n`-th token, nothing when `src` holds no
/// token at all, and an error when it holds some tokens but fewer than `n`.
/// Asked for no token, it gives offset zero as long as any token is left.
pub fn find_next_n_tokens(src: &[u8], n: usize) -> (r: Result<Option<usize>, BufkitFileError>)
    ensures
        match r {
            Ok(Some(e)) => next_n_tokens(src@, n as nat) == Ok::<Option<int>, BufkitFileError>(
                Some(e as int),
            ) && e <= src@.len() && (n > 0 ==> is_nth_token_end(src@, n as nat, e as int)),
            Ok(None) => next_n_tokens(src@, n as nat) == Ok::<Option<int>, BufkitFileError>(None),
            Err(err) => next_n_tokens(src@, n as nat) == Err::<Option<int>, BufkitFileError>(err),
        },
{
    let len: usize = src.len();
    if len == 0 {
        return Ok(None);
    }
    let mut count: usize = 0;
    let mut i: usize = 1;
    while i < len
        invariant
            1 <= i <= len,
            len == src@.len(),
            count == token_ends(src@, i - 1),
            count <= i - 1,
            n > 0 ==> count < n,
        decreases len - i,
    {
        if !is_space(src[i - 1]) && is_space(src[i]) {
            count += 1;
            if count == n {
                proof {
                    lemma_token_ends_monotonic(src@, i as int, len as int);
                    assert(is_nth_token_end(src@, n as nat, i as int));
                    let e = nth_token_end(src@, n as nat);
                    lemma_nth_token_end_unique(src@, n as nat, e, i as int);
                }
                return Ok(Some(i));
            }
        }
        i += 1;
    }
    if !is_space(src[len - 1]) {
        count += 1;
    }
    assert(count == token_count(src@));
    if count == 0 {
        Ok(None)
    } else if n == 0 {
        Ok(Some(0))
    } else if count == n {
        proof {
            assert(is_nth_token_end(src@, n as nat, len as int));
            let e = nth_token_end(src@, n as nat);
            lemma_nth_token_end_unique(src@, n as nat, e, len as int);
        }
        Ok(Some(len))
    } else {
        Err(BufkitFileError::new(ErrorKind::TokenCountError))
    }
}

/// Whether a scan for `key` and its value in `s` ends with the value between
/// `p` and `q`: `key` occurs in `s`; after its first occurrence `start_val`
/// turned down every byte before `p` and took the byte at `p`; and `end_val`
/// turned down every byte after `p` and before `q`, and took the byte at `q`
/// unless `q` is the end of `s`.
pub open spec fn key_value_at<FS: Fn(u8) -> bool, FE: Fn(u8) -> bool>(
    s: Seq<u8>,
    key: Seq<u8>,
    start_val: FS,
    end_val: FE,
    p: int,
    q: int,
) -> bool {
    match first_occurrence(s, key) {
        None => false,
        Some(k) => {
            &&& k + key.len() <= p < q <= s.len()
            &&& start_val.ensures((s[p],), true)
            &&& forall|j: int|
                k + key.len() <= j < p ==> start_val.ensures((#[trigger] s[j],), false)
            &&& (q < s.len() ==> end_val.ensures((s[q],), true))
            &&& forall|j: int| p < j < q ==> end_val.ensures((#[trigger] s[j],), false)
        },
    }
}

/// Whether a scan for `key` and its value in `s` finds none: `key` does not
/// occur, or `start_val` turned down every byte after its first occurrence.
pub open spec fn no_key_value<FS: Fn(u8) -> bool>(s: Seq<u8>, key: Seq<u8>, start_val: FS) -> bool {
    match first_occurrence(s, key) {
        None => true,
        Some(k) => forall|j: int|
            k + key.len() <= j < s.len() ==> start_val.ensures((#[trigger] s[j],), false),
    }
}

/// The first offset at or after `from` whose byte `accept` takes, or the end
/// of `src`.
fn scan_to<F: Fn(u8) -> bool>(src: &[u8], from: usize, accept: &F) -> (r: usize)
    requires
        from <= src@.len(),
        forall|b: u8| accept.requires((b,)),
    ensures
        from <= r <= src@.len(),
        r < src@.len() ==> accept.ensures((src@[r as int],), true),
        forall|j: int| from <= j < r ==> accept.ensures((#[trigger] src@[j],), false),
{
    let n: usize = src.len();
    let mut i: usize = from;
    while i < n
        invariant
            from <= i <= n,
            n == src@.len(),
            forall|b: u8| accept.requires((b,)),
            forall|j: int| from <= j < i ==> accept.ensures((#[trigger] src@[j],), false),
        decreases n - i,
    {
        if accept(src[i]) {
            return i;
        }
        i += 1;
    }
    n
}

/// Isolates the value of a `KEY = VALUE` pair for further parsing.
///
/// The scan finds the first occurrence of `key`, goes on after the key to the
/// first byte that `start_val` takes, and from the byte after that one to the
/// first byte that `end_val` takes, or to the end of `src`. It gives the text
/// between the two, without white space at its ends, and the rest of `src`
/// from the end of the value on, so that the next key can be looked for there.
pub fn parse_kv<'a, FS: Fn(u8) -> bool, FE: Fn(u8) -> bool>(
    src: &'a [u8],
    key: &[u8],
    start_val: FS,
    end_val: FE,
) -> (r: Result<(&'a [u8], &'a [u8]), BufkitFileError>)
    requires
        forall|b: u8| start_val.requires((b,)),
        forall|b: u8| end_val.requires((b,)),
    ensures
        match r {
            Ok((value, rest)) => exists|p: int, q: int|
                {
                    &&& key_value_at(src@, key@, start_val, end_val, p, q)
                    &&& value@ == trimmed(src@.subrange(p, q))
                    &&& rest@ == src@.subrange(q, src@.len() as int)
                },
            Err(e) => e.kind == ErrorKind::MalformedKeyValue && no_key_value(
                src@,
                key@,
                start_val,
            ),
        },
{
    let n: usize = src.len();
    let k: usize = match find_key(src, key) {
        Some(k) => k,
        None => {
            return Err(BufkitFileError::new(ErrorKind::MalformedKeyValue));
        },
    };
    proof {
        crate::text::lemma_first_occurrence(src@, key@, 0);
    }
    let p: usize = scan_to(src, k + key.len(), &start_val);
    if p >= n {
        return Err(BufkitFileError::new(ErrorKind::MalformedKeyValue));
    }
    let q: usize = scan_to(src, p + 1, &end_val);
    let value = trim(vstd::slice::slice_subrange(src, p, q));
    let rest = vstd::slice::slice_subrange(src, q, n);
    assert(key_value_at(src@, key@, start_val, end_val, p as int, q as int));
    Ok((value, rest))
}

/// Where the value of `key` stands in `s`, as its two ends: the value begins
/// at the first byte after the first occurrence of `key` that satisfies
/// `start`, and ends before the first later byte that satisfies `stop`, or at
/// the end of `s`.
pub open spec fn key_value(
    s: Seq<u8>,
    key: Seq<u8>,
    start: spec_fn(u8) -> bool,
    stop: spec_fn(u8) -> bool,
) -> Option<(int, int)> {
    match first_occurrence(s, key) {
        None => None,
        Some(k) => {
            let p = first_from(s, k + key.len(), start);
            if p >= s.len() {
                None
            } else {
                Some((p, first_from(s, p + 1, stop)))
            }
        },
    }
}

/// What a scan with two closures found is what `key_value` names, where the
/// closures compute `start` and `stop`.
pub proof fn lemma_key_value_found<FS: Fn(u8) -> bool, FE: Fn(u8) -> bool>(
    s: Seq<u8>,
    key: Seq<u8>,
    start_val: FS,
    end_val: FE,
    start: spec_fn(u8) -> bool,
    stop: spec_fn(u8) -> bool,
    p: int,
    q: int,
)
    requires
        key_value_at(s, key, start_val, end_val, p, q),
        forall|b: u8, r: bool| start_val.ensures((b,), r) ==> r == start(b),
        forall|b: u8, r: bool| end_val.ensures((b,), r) ==> r == stop(b),
    ensures
        key_value(s, key, start, stop) == Some((p, q)),
        0 <= p < q <= s.len(),
        start(s[p]),
        forall|j: int| p < j < q ==> !stop(#[trigger] s[j]),
{
    let k = first_occurrence(s, key)->0;
    crate::text::lemma_first_occurrence(s, key, 0);
    assert forall|j: int| k + key.len() <= j < p implies !start(#[trigger] s[j]) by {
        assert(start_val.ensures((s[j],), false));
    }
    lemma_first_from_is(s, k + key.len(), start, p);
    assert forall|j: int| p + 1 <= j < q implies !stop(#[trigger] s[j]) by {
        assert(end_val.ensures((s[j],), false));
    }
    lemma_first_from_is(s, p + 1, stop, q);
}

/// Where a scan with a closure found no value, `key_value` names none, where
/// the closure computes `start`.
pub proof fn lemma_key_value_absent<FS: Fn(u8) -> bool>(
    s: Seq<u8>,
    key: Seq<u8>,
    start_val: FS,
    start: spec_fn(u8) -> bool,
    stop: spec_fn(u8) -> bool,
)
    requires
        no_key_value(s, key, start_val),
        forall|b: u8, r: bool| start_val.ensures((b,), r) ==> r == start(b),
    ensures
        key_value(s, key, start, stop) is None,
{
    if first_occurrence(s, key) is Some {
        let k = first_occurrence(s, key)->0;
        crate::text::lemma_first_occurrence(s, key, 0);
        assert forall|j: int| k + key.len() <= j < s.len() implies !start(#[trigger] s[j]) by {
            assert(start_val.ensures((s[j],), false));
        }
        lemma_first_from_is(s, k + key.len(), start, s.len() as int);
    }
}

/// What `parse_kv` gave is what `key_value` names, where the closures
/// compute `start` and `stop` and a value made of bytes that `start` takes or
/// `stop` turns down holds no white space: the value is the text between the
/// two ends, with nothing trimmed off.
pub proof fn lemma_parse_kv_found<FS: Fn(u8) -> bool, FE: Fn(u8) -> bool>(
    s: Seq<u8>,
    key: Seq<u8>,
    start_val: FS,
    end_val: FE,
    start: spec_fn(u8) -> bool,
    stop: spec_fn(u8) -> bool,
    value: Seq<u8>,
    rest: Seq<u8>,
)
    requires
        exists|p: int, q: int|
            {
                &&& key_value_at(s, key, start_val, end_val, p, q)
                &&& value == trimmed(s.subrange(p, q))
                &&& rest == s.subrange(q, s.len() as int)
            },
        forall|b: u8, r: bool| start_val.ensures((b,), r) ==> r == start(b),
        forall|b: u8, r: bool| end_val.ensures((b,), r) ==> r == stop(b),
        forall|b: u8| start(b) ==> !is_space(b),
        forall|b: u8| !stop(b) ==> !is_space(b),
    ensures
        key_value(s, key, start, stop) is Some,
        ({
            let (p, q) = key_value(s, key, start, stop)->Some_0;
            &&& 0 <= p < q <= s.len()
            &&& value == s.subrange(p, q)
            &&& rest == s.subrange(q, s.len() as int)
        }),
{
    let (p, q) = choose|p: int, q: int|
        {
            &&& key_value_at(s, key, start_val, end_val, p, q)
            &&& value == trimmed(s.subrange(p, q))
            &&& rest == s.subrange(q, s.len() as int)
        };
    lemma_key_value_found(s, key, start_val, end_val, start, stop, p, q);
    let v = s.subrange(p, q);
    assert(v[0] == s[p]);
    assert(p < q - 1 ==> !stop(s[q - 1]));
    assert(v.last() == s[q - 1]);
    lemma_trimmed_solid(v);
}

/// The value of `key` in `s` as a run of digits, and the text after it.
pub open spec fn i32_kv(s: Seq<u8>, key: Seq<u8>) -> Result<(i32, Seq<u8>), ErrorKind> {
    match key_value(s, key, |b: u8| is_digit(b), |b: u8| !is_digit(b)) {
        None => Err(ErrorKind::MalformedKeyValue),
        Some((p, q)) => match i32_of_token(s.subrange(p, q)) {
            Some(v) => Ok((v, s.subrange(q, s.len() as int))),
            None => Err(ErrorKind::NumericConversion),
        },
    }
}

/// Parses the value of `key` as an integer: the first run of digits after the
/// key. Gives the integer and the text after it.
///
/// Fails with `MalformedKeyValue` where the key or a digit after it is absent,
/// and with `NumericConversion` where the digits do not fit 32 bits.
pub fn parse_i32<'a>(src: &'a [u8], key: &[u8]) -> (r: Result<(i32, &'a [u8]), BufkitFileError>)
    ensures
        match i32_kv(src@, key@) {
            Ok((v, rest)) => r is Ok && r->Ok_0.0 == v && r->Ok_0.1@ == rest,
            Err(kind) => r is Err && r->Err_0.kind == kind,
        },
{
    let start_val = |b: u8| -> (r: bool)
        ensures
            r == is_digit(b),
        { is_digit(b) };
    let end_val = |b: u8| -> (r: bool)
        ensures
            r == !is_digit(b),
        { !is_digit(b) };
    let ghost start = |b: u8| is_digit(b);
    let ghost stop = |b: u8| !is_digit(b);
    match parse_kv(src, key, start_val, end_val) {
        Ok((value, rest)) => {
            proof {
                lemma_parse_kv_found(
                    src@,
                    key@,
                    start_val,
                    end_val,
                    start,
                    stop,
                    value@,
                    rest@,
                );
            }
            match parse_i32_token(value) {
                Some(v) => Ok((v, rest)),
                None => Err(BufkitFileError::new(ErrorKind::NumericConversion)),
            }
        },
        Err(_) => {
            proof {
                lemma_key_value_absent(src@, key@, start_val, start, stop);
            }
            Err(BufkitFileError::new(ErrorKind::MalformedKeyValue))
        },
    }
}

/// The bytes that a decimal value may begin with: a digit or a minus sign.
pub open spec fn is_decimal_start(b: u8) -> bool {
    is_digit(b) || b == MINUS
}

/// The bytes that a decimal value is made of: digits, the point and the minus
/// sign.
pub open spec fn is_decimal_byte(b: u8) -> bool {
    is_digit(b) || b == DOT || b == MINUS
}

/// The value of `key` in `s` as a decimal, and the text after it.
pub open spec fn decimal_kv(s: Seq<u8>, key: Seq<u8>) -> Result<(Decimal, Seq<u8>), ErrorKind> {
    match key_value(s, key, |b: u8| is_decimal_start(b), |b: u8| !is_decimal_byte(b)) {
        None => Err(ErrorKind::MalformedKeyValue),
        Some((p, q)) => match decimal_of_token(s.subrange(p, q)) {
            Some(d) => Ok((d, s.subrange(q, s.len() as int))),
            None => Err(ErrorKind::NumericConversion),
        },
    }
}

/// Parses the value of `key` as a decimal: the first run of digits, points and
/// minus signs after the key that begins with a digit or a minus sign. Gives
/// the decimal as it is written, the missing value included, and the text
/// after it.
///
/// Fails with `MalformedKeyValue` where the key or the start of a value after
/// it is absent, and with `NumericConversion` where the run is no decimal that
/// fits.
pub fn parse_f64<'a>(src: &'a [u8], key: &[u8]) -> (r: Result<
    (Decimal, &'a [u8]),
    BufkitFileError,
>)
    ensures
        match decimal_kv(src@, key@) {
            Ok((d, rest)) => r is Ok && r->Ok_0.0 == d && r->Ok_0.1@ == rest && d.wf(),
            Err(kind) => r is Err && r->Err_0.kind == kind,
        },
{
    let start_val = |b: u8| -> (r: bool)
        ensures
            r == is_decimal_start(b),
        { is_digit(b) || b == MINUS };
    let end_val = |b: u8| -> (r: bool)
        ensures
            r == !is_decimal_byte(b),
        { !(is_digit(b) || b == DOT || b == MINUS) };
    let ghost start = |b: u8| is_decimal_start(b);
    let ghost stop = |b: u8| !is_decimal_byte(b);
    match parse_kv(src, key, start_val, end_val) {
        Ok((value, rest)) => {
            proof {
                lemma_parse_kv_found(
                    src@,
                    key@,
                    start_val,
                    end_val,
                    start,
                    stop,
                    value@,
                    rest@,
                );
            }
            match Decimal::parse(value) {
                Some(d) => Ok((d, rest)),
                None => Err(BufkitFileError::new(ErrorKind::NumericConversion)),
            }
        },
        Err(_) => {
            proof {
                lemma_key_value_absent(src@, key@, start_val, start, stop);
            }
            Err(BufkitFileError::new(ErrorKind::MalformedKeyValue))
        },
    }
}

/// The decimal `d` as a value that may be absent: absent where `d` is the
/// number that stands for missing data, and `d` itself otherwise.
pub open spec fn spec_check_missing(d: Decimal) -> Option<Decimal> {
    if d.is_missing() {
        None
    } else {
        Some(d)
    }
}

/// Turns the number that stands for missing data into an absent value, and
/// keeps every other number as it is.
#[verifier::when_used_as_spec(spec_check_missing)]
pub fn check_missing(d: Decimal) -> (r: Option<Decimal>)
    ensures
        r == spec_check_missing(d),
{
    if d.is_missing() {
        None
    } else {
        Some(d)
    }
}

/// Turns the integer that stands for missing data into an absent value, and
/// keeps every other integer as it is.
pub fn check_missing_i32(v: i32) -> (r: Option<i32>)
    ensures
        r == if v == MISSING_I32 {
            None
        } else {
            Some(v)
        },
{
    if v == MISSING_I32 {
        None
    } else {
        Some(v)
    }
}

/// The byte `/`.
pub const SLASH: u8 = 0x2f;

/// The number that the two digits of `t` at `i` and after it write.
pub open spec fn two_digits(t: Seq<u8>, i: int) -> int {
    (t[i] - 0x30) * 10 + (t[i + 1] - 0x30)
}

/// Whether `t` has the shape `YYMMDD/HHMM`: six digits, a slash, four digits.
pub open spec fn is_time_shape(t: Seq<u8>) -> bool {
    &&& t.len() == 11
    &&& t[6] == SLASH
    &&& forall|i: int| 0 <= i < 11 && i != 6 ==> is_digit(#[trigger] t[i])
}

/// The valid time that `s` writes between white space, in the shape
/// `YYMMDD/HHMM`, with the year counted from 2000; nothing where `s` has
/// another shape or names no real day and time.
pub open spec fn time_of_token(s: Seq<u8>) -> Option<ValidTime> {
    let t = trimmed(s);
    let vt = ValidTime {
        year: (2000 + two_digits(t, 0)) as i32,
        month: two_digits(t, 2) as u32,
        day: two_digits(t, 4) as u32,
        hour: two_digits(t, 7) as u32,
        minute: two_digits(t, 9) as u32,
    };
    if is_time_shape(t) && vt.wf() {
        Some(vt)
    } else {
        None
    }
}

/// Reads the two digits of `t` at `i` and after it.
fn read_two_digits(t: &[u8], i: usize) -> (r: Option<u32>)
    requires
        i + 1 < t@.len(),
    ensures
        r is Some <==> is_digit(t@[i as int]) && is_digit(t@[i + 1]),
        r is Some ==> r->0 == two_digits(t@, i as int) && r->0 < 100,
{
    let a: u8 = t[i];
    let b: u8 = t[i + 1];
    if is_digit(a) && is_digit(b) {
        Some((a - 0x30) as u32 * 10 + (b - 0x30) as u32)
    } else {
        None
    }
}

/// Parses a valid time of the shape `YYMMDD/HHMM`, with white space allowed
/// around it. The year is counted from 2000 and the seconds are zero.
///
/// Fails with `InvalidTimestamp` on any other shape, and where the digits
/// name no day of the calendar or no time of day.
pub fn parse_naive_date_time(src: &[u8]) -> (r: Result<ValidTime, BufkitFileError>)
    ensures
        match time_of_token(src@) {
            Some(vt) => r == Ok::<ValidTime, BufkitFileError>(vt) && vt.wf(),
            None => r is Err && r->Err_0.kind == ErrorKind::InvalidTimestamp,
        },
{
    let t = trim(src);
    if t.len() != 11 || t[6] != SLASH {
        return Err(BufkitFileError::new(ErrorKind::InvalidTimestamp));
    }
    let fields = (
        read_two_digits(t, 0),
        read_two_digits(t, 2),
        read_two_digits(t, 4),
        read_two_digits(t, 7),
        read_two_digits(t, 9),
    );
    match fields {
        (Some(yy), Some(month), Some(day), Some(hour), Some(minute)) => {
            match ValidTime::new(2000 + yy as i32, month, day, hour, minute) {
                Some(vt) => Ok(vt),
                None => Err(BufkitFileError::new(ErrorKind::InvalidTimestamp)),
            }
        },
        _ => Err(BufkitFileError::new(ErrorKind::InvalidTimestamp)),
    }
}

} // verus!
