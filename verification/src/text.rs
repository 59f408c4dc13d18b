//! Byte classes and the elementary scans that the decoders are built from.
use vstd::prelude::*;

verus! {

/// The line feed byte.
pub const NEWLINE: u8 = 0x0a;

/// ASCII white space: the space and the control bytes from tab to carriage
/// return.
pub open spec fn spec_is_space(b: u8) -> bool {
    b == 0x20 || (0x09 <= b && b <= 0x0d)
}

/// Whether `b` is ASCII white space.
#[verifier::when_used_as_spec(spec_is_space)]
pub fn is_space(b: u8) -> (r: bool)
    ensures
        r == spec_is_space(b),
{
    b == 0x20 || (0x09 <= b && b <= 0x0d)
}

/// The ten ASCII digits.
pub open spec fn spec_is_digit(b: u8) -> bool {
    0x30 <= b && b <= 0x39
}

/// Whether `b` is an ASCII digit.
#[verifier::when_used_as_spec(spec_is_digit)]
pub fn is_digit(b: u8) -> (r: bool)
    ensures
        r == spec_is_digit(b),
{
    0x30 <= b && b <= 0x39
}

/// ASCII letters and digits.
pub open spec fn spec_is_alphanumeric(b: u8) -> bool {
    spec_is_digit(b) || (0x41 <= b && b <= 0x5a) || (0x61 <= b && b <= 0x7a)
}

/// Whether `b` is an ASCII letter or digit.
#[verifier::when_used_as_spec(spec_is_alphanumeric)]
pub fn is_alphanumeric(b: u8) -> (r: bool)
    ensures
        r == spec_is_alphanumeric(b),
{
    is_digit(b) || (0x41 <= b && b <= 0x5a) || (0x61 <= b && b <= 0x7a)
}

/// `s` without its leading white space.
pub open spec fn trim_start(s: Seq<u8>) -> Seq<u8>
    decreases s.len(),
{
    if s.len() > 0 && is_space(s[0]) {
        trim_start(s.drop_first())
    } else {
        s
    }
}

/// `s` without its trailing white space.
pub open spec fn trim_end(s: Seq<u8>) -> Seq<u8>
    decreases s.len(),
{
    if s.len() > 0 && is_space(s.last()) {
        trim_end(s.drop_last())
    } else {
        s
    }
}

/// `s` without the white space at either end.
pub open spec fn trimmed(s: Seq<u8>) -> Seq<u8> {
    trim_end(trim_start(s))
}

/// Cuts the white space from both ends of `src`.
pub fn trim<'a>(src: &'a [u8]) -> (r: &'a [u8])
    ensures
        r@ == trimmed(src@),
{
    let n: usize = src.len();
    let mut lo: usize = 0;
    assert(src@.subrange(0, n as int) =~= src@);
    while lo < n && is_space(src[lo])
        invariant
            lo <= n,
            n == src@.len(),
            trim_start(src@) == trim_start(src@.subrange(lo as int, n as int)),
        decreases n - lo,
    {
        proof {
            let cur = src@.subrange(lo as int, n as int);
            assert(cur.drop_first() =~= src@.subrange(lo + 1, n as int));
        }
        lo += 1;
    }
    assert(trim_start(src@) == src@.subrange(lo as int, n as int));
    let mut hi: usize = n;
    while hi > lo && is_space(src[hi - 1])
        invariant
            lo <= hi <= n,
            n == src@.len(),
            trimmed(src@) == trim_end(src@.subrange(lo as int, hi as int)),
        decreases hi,
    {
        proof {
            let cur = src@.subrange(lo as int, hi as int);
            assert(cur.drop_last() =~= src@.subrange(lo as int, hi - 1));
        }
        hi -= 1;
    }
    vstd::slice::slice_subrange(src, lo, hi)
}

/// Whether `key` stands in `s` at index `i`.
pub open spec fn occurs_at(s: Seq<u8>, key: Seq<u8>, i: int) -> bool {
    0 <= i && i + key.len() <= s.len() && s.subrange(i, i + key.len()) == key
}

/// The least index at or after `i` where `key` stands in `s`.
pub open spec fn first_occurrence_from(s: Seq<u8>, key: Seq<u8>, i: int) -> Option<int>
    decreases s.len() - i,
{
    if occurs_at(s, key, i) {
        Some(i)
    } else if i < 0 || i >= s.len() {
        None
    } else {
        first_occurrence_from(s, key, i + 1)
    }
}

/// The least index where `key` stands in `s`.
pub open spec fn first_occurrence(s: Seq<u8>, key: Seq<u8>) -> Option<int> {
    first_occurrence_from(s, key, 0)
}

/// What `first_occurrence_from` finds is an occurrence, and the least one.
pub proof fn lemma_first_occurrence(s: Seq<u8>, key: Seq<u8>, i: int)
    requires
        0 <= i,
    ensures
        match first_occurrence_from(s, key, i) {
            Some(k) => i <= k && occurs_at(s, key, k) && forall|j: int|
                i <= j < k ==> !occurs_at(s, key, j),
            None => forall|j: int| i <= j ==> !occurs_at(s, key, j),
        },
    decreases s.len() - i,
{
    if occurs_at(s, key, i) {
    } else if i >= s.len() {
    } else {
        lemma_first_occurrence(s, key, i + 1);
    }
}

/// Whether `key` stands in `src` at index `i`.
pub fn matches_at(src: &[u8], key: &[u8], i: usize) -> (r: bool)
    requires
        i + key@.len() <= src@.len(),
    ensures
        r == occurs_at(src@, key@, i as int),
{
    let klen: usize = key.len();
    let n: usize = src.len();
    let mut j: usize = 0;
    while j < klen
        invariant
            j <= klen,
            klen == key@.len(),
            n == src@.len(),
            i + klen <= n,
            forall|t: int| 0 <= t < j ==> src@[i + t] == key@[t],
        decreases klen - j,
    {
        if src[i + j] != key[j] {
            proof {
                let window = src@.subrange(i as int, i + klen);
                assert(window[j as int] != key@[j as int]);
            }
            return false;
        }
        j += 1;
    }
    assert(src@.subrange(i as int, i + klen) =~= key@);
    true
}

/// Finds the first place where `key` stands in `src`.
pub fn find_key(src: &[u8], key: &[u8]) -> (r: Option<usize>)
    ensures
        match r {
            Some(k) => first_occurrence(src@, key@) == Some(k as int),
            None => first_occurrence(src@, key@) is None,
        },
{
    let n: usize = src.len();
    let klen: usize = key.len();
    if klen > n {
        proof {
            lemma_first_occurrence(src@, key@, 0);
        }
        return None;
    }
    let last: usize = n - klen;
    let mut i: usize = 0;
    loop
        invariant
            i <= last,
            last == n - klen,
            n == src@.len(),
            klen == key@.len(),
            first_occurrence(src@, key@) == first_occurrence_from(src@, key@, i as int),
        decreases last - i,
    {
        if matches_at(src, key, i) {
            return Some(i);
        }
        if i == last {
            proof {
                lemma_first_occurrence(src@, key@, i + 1);
            }
            return None;
        }
        i += 1;
    }
}

/// Trimming takes nothing from a text that neither begins nor ends with white
/// space.
pub proof fn lemma_trimmed_solid(s: Seq<u8>)
    requires
        s.len() == 0 || (!is_space(s[0]) && !is_space(s.last())),
    ensures
        trimmed(s) == s,
{
}

/// Whether two texts hold the same bytes.
pub fn bytes_equal(a: &[u8], b: &[u8]) -> (r: bool)
    ensures
        r == (a@ == b@),
{
    let n: usize = a.len();
    if n != b.len() {
        return false;
    }
    let mut i: usize = 0;
    while i < n
        invariant
            i <= n,
            n == a@.len(),
            n == b@.len(),
            forall|j: int| 0 <= j < i ==> a@[j] == b@[j],
        decreases n - i,
    {
        if a[i] != b[i] {
            return false;
        }
        i += 1;
    }
    assert(a@ =~= b@);
    true
}

/// The first offset at or after `from` whose byte satisfies `pred`, or the
/// length of `s` where there is none.
pub open spec fn first_from(s: Seq<u8>, from: int, pred: spec_fn(u8) -> bool) -> int
    decreases s.len() - from,
{
    if from >= s.len() {
        s.len() as int
    } else if pred(s[from]) {
        from
    } else {
        first_from(s, from + 1, pred)
    }
}

/// An offset that `pred` holds at, with no earlier one from `from` on, is the
/// first such offset.
pub proof fn lemma_first_from_is(s: Seq<u8>, from: int, pred: spec_fn(u8) -> bool, p: int)
    requires
        0 <= from <= p <= s.len(),
        p < s.len() ==> pred(s[p]),
        forall|j: int| from <= j < p ==> !pred(#[trigger] s[j]),
    ensures
        first_from(s, from, pred) == p,
    decreases p - from,
{
    if from < p {
        lemma_first_from_is(s, from + 1, pred, p);
    }
}

/// The first offset that satisfies `pred` lies within the text, satisfies it,
/// and has none before it that does.
pub proof fn lemma_first_from(s: Seq<u8>, from: int, pred: spec_fn(u8) -> bool)
    requires
        0 <= from <= s.len(),
    ensures
        from <= first_from(s, from, pred) <= s.len(),
        first_from(s, from, pred) < s.len() ==> pred(s[first_from(s, from, pred)]),
        forall|j: int| from <= j < first_from(s, from, pred) ==> !pred(#[trigger] s[j]),
    decreases s.len() - from,
{
    if from < s.len() && !pred(s[from]) {
        lemma_first_from(s, from + 1, pred);
    }
}

/// The first token of `s`, that is its first run of bytes other than white
/// space, and the text after that token; nothing where `s` is blank.
pub open spec fn first_token(s: Seq<u8>) -> Option<(Seq<u8>, Seq<u8>)> {
    let a = first_from(s, 0, |b: u8| !is_space(b));
    if a >= s.len() {
        None
    } else {
        let e = first_from(s, a, |b: u8| is_space(b));
        Some((s.subrange(a, e), s.subrange(e, s.len() as int)))
    }
}

/// The white space delimited tokens of `s`, in order.
pub open spec fn tokens(s: Seq<u8>) -> Seq<Seq<u8>>
    decreases s.len(),
    via tokens_decreases
{
    match first_token(s) {
        None => Seq::empty(),
        Some((t, rest)) => seq![t] + tokens(rest),
    }
}

#[via_fn]
proof fn tokens_decreases(s: Seq<u8>) {
    if first_token(s) is Some {
        lemma_first_token(s);
    }
}

/// A first token is not empty, holds no white space, and leaves less text
/// than there was.
pub proof fn lemma_first_token(s: Seq<u8>)
    requires
        first_token(s) is Some,
    ensures
        ({
            let (t, rest) = first_token(s)->Some_0;
            &&& t.len() > 0
            &&& rest.len() < s.len()
            &&& forall|i: int| 0 <= i < t.len() ==> !is_space(#[trigger] t[i])
        }),
{
    let a = first_from(s, 0, |b: u8| !is_space(b));
    lemma_first_from(s, 0, |b: u8| !is_space(b));
    lemma_first_from(s, a, |b: u8| is_space(b));
    let e = first_from(s, a, |b: u8| is_space(b));
    let t = s.subrange(a, e);
    assert forall|i: int| 0 <= i < t.len() implies !is_space(#[trigger] t[i]) by {
        assert(t[i] == s[a + i]);
    }
}

/// Cuts the first token off `src`: gives the token and the text after it, or
/// nothing where `src` is blank.
pub fn split_first_token<'a>(src: &'a [u8]) -> (r: Option<(&'a [u8], &'a [u8])>)
    ensures
        match first_token(src@) {
            None => r is None,
            Some((t, rest)) => r is Some && r->Some_0.0@ == t && r->Some_0.1@ == rest,
        },
        r is Some ==> r->Some_0.0@.len() > 0 && r->Some_0.1@.len() < src@.len(),
{
    let n: usize = src.len();
    let mut a: usize = 0;
    while a < n && is_space(src[a])
        invariant
            a <= n,
            n == src@.len(),
            forall|j: int| 0 <= j < a ==> is_space(#[trigger] src@[j]),
        decreases n - a,
    {
        a += 1;
    }
    proof {
        lemma_first_from_is(src@, 0, |b: u8| !is_space(b), a as int);
    }
    if a == n {
        return None;
    }
    let mut e: usize = a + 1;
    while e < n && !is_space(src[e])
        invariant
            a < e <= n,
            n == src@.len(),
            forall|j: int| a <= j < e ==> !is_space(#[trigger] src@[j]),
        decreases n - e,
    {
        e += 1;
    }
    proof {
        lemma_first_from_is(src@, a as int, |b: u8| is_space(b), e as int);
    }
    Some((vstd::slice::slice_subrange(src, a, e), vstd::slice::slice_subrange(src, e, n)))
}

} // verus!
