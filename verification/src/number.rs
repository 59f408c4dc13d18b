//! Numbers as the format writes them: signed integers and signed decimals.
//!
//! A decimal is kept exactly, as an integer mantissa and a count of
//! fractional digits, so that the value that stands for missing data can be
//! told from every other value without rounding.
use vstd::prelude::*;

use crate::text::is_digit;

verus! {

/// The byte `+`.
pub const PLUS: u8 = 0x2b;

/// The byte `-`.
pub const MINUS: u8 = 0x2d;

/// The byte `.`.
pub const DOT: u8 = 0x2e;

/// The bound that the magnitude of a mantissa stays under: ten to the
/// eighteenth.
pub const MANTISSA_LIMIT: u64 = 1_000_000_000_000_000_000;

/// The largest count of fractional digits.
pub const MAX_SCALE: u8 = 18;

/// Whether every byte of `s` is a digit.
pub open spec fn all_digits(s: Seq<u8>) -> bool {
    forall|i: int| 0 <= i < s.len() ==> is_digit(#[trigger] s[i])
}

/// The number that the digits `s` write in base ten.
pub open spec fn digits_value(s: Seq<u8>) -> nat
    decreases s.len(),
{
    if s.len() == 0 {
        0
    } else {
        digits_value(s.drop_last()) * 10 + (s.last() - 0x30) as nat
    }
}

/// Whether `s` begins with a sign.
pub open spec fn has_sign(s: Seq<u8>) -> bool {
    s.len() > 0 && (s[0] == PLUS || s[0] == MINUS)
}

/// Whether `s` begins with a minus sign.
pub open spec fn is_negative(s: Seq<u8>) -> bool {
    s.len() > 0 && s[0] == MINUS
}

/// `s` without its sign.
pub open spec fn unsigned_part(s: Seq<u8>) -> Seq<u8> {
    if has_sign(s) {
        s.drop_first()
    } else {
        s
    }
}

/// The integer that `s` writes: an optional sign, then one digit or more.
pub open spec fn integer_value(s: Seq<u8>) -> Option<int> {
    let body = unsigned_part(s);
    if body.len() > 0 && all_digits(body) {
        Some(
            if is_negative(s) {
                -(digits_value(body) as int)
            } else {
                digits_value(body) as int
            },
        )
    } else {
        None
    }
}

/// The 32-bit integer that `s` writes, if it writes one that fits.
pub open spec fn i32_of_token(s: Seq<u8>) -> Option<i32> {
    match integer_value(s) {
        Some(v) => if i32::MIN <= v <= i32::MAX {
            Some(v as i32)
        } else {
            None
        },
        None => None,
    }
}

/// Appending a digit multiplies the value by ten and adds the digit.
pub proof fn lemma_digits_value_push(s: Seq<u8>, d: u8)
    ensures
        digits_value(s.push(d)) == digits_value(s) * 10 + (d - 0x30) as nat,
{
    assert(s.push(d).drop_last() =~= s);
}

/// Reads a signed integer from a whole token.
///
/// The token is an optional `+` or `-` and then digits only. A token of
/// another shape, or one whose value does not fit 32 bits, gives nothing.
pub fn parse_i32_token(token: &[u8]) -> (r: Option<i32>)
    ensures
        r == i32_of_token(token@),
{
    let n: usize = token.len();
    let mut i: usize = 0;
    let mut negative: bool = false;
    if n > 0 && (token[0] == PLUS || token[0] == MINUS) {
        negative = token[0] == MINUS;
        i = 1;
    }
    let start: usize = i;
    assert(unsigned_part(token@) =~= token@.subrange(start as int, n as int));
    if start == n {
        return None;
    }
    let mut acc: u64 = 0;
    let mut fits: bool = true;
    assert(token@.subrange(start as int, i as int) =~= Seq::<u8>::empty());
    while i < n
        invariant
            start <= i <= n,
            n == token@.len(),
            unsigned_part(token@) == token@.subrange(start as int, n as int),
            all_digits(token@.subrange(start as int, i as int)),
            fits ==> acc == digits_value(token@.subrange(start as int, i as int)) && acc
                <= 0x8000_0000,
            !fits ==> digits_value(token@.subrange(start as int, i as int)) > 0x8000_0000,
        decreases n - i,
    {
        let c: u8 = token[i];
        if !is_digit(c) {
            proof {
                let body = token@.subrange(start as int, n as int);
                assert(body[i - start] == c);
            }
            return None;
        }
        proof {
            let seen = token@.subrange(start as int, i as int);
            lemma_digits_value_push(seen, c);
            assert(seen.push(c) =~= token@.subrange(start as int, i + 1));
        }
        if fits {
            acc = acc * 10 + (c - 0x30) as u64;
            if acc > 0x8000_0000 {
                fits = false;
            }
        }
        i += 1;
    }
    if !fits {
        None
    } else if negative {
        Some((-(acc as i64)) as i32)
    } else if acc == 0x8000_0000 {
        None
    } else {
        Some(acc as i32)
    }
}

/// Ten to the power `e`.
pub open spec fn pow10(e: nat) -> nat
    decreases e,
{
    if e == 0 {
        1
    } else {
        10 * pow10((e - 1) as nat)
    }
}

/// A decimal number: `mantissa` divided by ten to the power `scale`.
///
/// A well-formed decimal is written in lowest terms, so two of them are equal
/// as numbers exactly when their fields are equal.
#[derive(Debug, Clone, Copy, PartialEq, Eq, Structural)]
pub struct Decimal {
    /// All the digits of the number, as a signed integer.
    pub mantissa: i64,
    /// How many of those digits stand after the decimal point.
    pub scale: u8,
}

/// A magnitude and a scale in lowest terms: zeros at the end of the fraction
/// are taken off, one at a time.
pub open spec fn lowest_terms(mag: nat, scale: nat) -> (nat, nat)
    decreases scale,
{
    if scale > 0 && mag % 10 == 0 {
        lowest_terms(mag / 10, (scale - 1) as nat)
    } else {
        (mag, scale)
    }
}

/// The decimal with the given sign, magnitude and scale, in lowest terms.
pub open spec fn decimal_of(negative: bool, mag: nat, scale: nat) -> Decimal {
    let (m, s) = lowest_terms(mag, scale);
    Decimal {
        mantissa: if negative {
            (-(m as int)) as i64
        } else {
            m as i64
        },
        scale: s as u8,
    }
}

/// The count of digits that `s` begins with.
pub open spec fn leading_digits(s: Seq<u8>) -> nat
    decreases s.len(),
{
    if s.len() > 0 && is_digit(s[0]) {
        1 + leading_digits(s.drop_first())
    } else {
        0
    }
}

/// The sign, magnitude and scale that `s` writes: an optional sign, digits, and
/// optionally a point and more digits, with one digit at least. The magnitude
/// is the number that all the digits write together; the scale counts the
/// digits after the point.
pub open spec fn decimal_text(s: Seq<u8>) -> Option<(bool, nat, nat)> {
    let body = unsigned_part(s);
    let w = leading_digits(body) as int;
    let whole = body.take(w);
    let tail = body.skip(w);
    let frac = if tail.len() > 0 {
        tail.drop_first()
    } else {
        tail
    };
    if (tail.len() == 0 || tail[0] == DOT) && all_digits(frac) && whole.len() + frac.len() > 0 {
        Some((is_negative(s), digits_value(whole + frac), frac.len()))
    } else {
        None
    }
}

/// The decimal that `s` writes, if it writes one that fits: a magnitude under
/// ten to the eighteenth with at most eighteen digits after the point.
pub open spec fn decimal_of_token(s: Seq<u8>) -> Option<Decimal> {
    match decimal_text(s) {
        Some((negative, mag, scale)) => if mag < MANTISSA_LIMIT && scale <= MAX_SCALE {
            Some(decimal_of(negative, mag, scale))
        } else {
            None
        },
        None => None,
    }
}

/// A run of `w` digits that ends at a byte other than a digit, or at the end,
/// is the whole leading run.
pub proof fn lemma_leading_digits(s: Seq<u8>, w: int)
    requires
        0 <= w <= s.len(),
        all_digits(s.take(w)),
        w == s.len() || !is_digit(s[w]),
    ensures
        leading_digits(s) == w,
    decreases w,
{
    if w == 0 {
    } else {
        assert(s.take(w)[0] == s[0]);
        let rest = s.drop_first();
        assert forall|i: int| 0 <= i < w - 1 implies is_digit(#[trigger] rest.take(w - 1)[i]) by {
            assert(rest.take(w - 1)[i] == s.take(w)[i + 1]);
        }
        lemma_leading_digits(rest, w - 1);
    }
}

/// Lowest terms keep the number, shorten nothing that was short enough, and
/// leave no zero at the end of a fraction.
pub proof fn lemma_lowest_terms(mag: nat, scale: nat)
    ensures
        ({
            let (m, s) = lowest_terms(mag, scale);
            &&& m <= mag
            &&& s <= scale
            &&& (s == 0 || m % 10 != 0)
            &&& m * pow10((scale - s) as nat) == mag
        }),
    decreases scale,
{
    if scale > 0 && mag % 10 == 0 {
        lemma_lowest_terms(mag / 10, (scale - 1) as nat);
        let (m, s) = lowest_terms(mag / 10, (scale - 1) as nat);
        let e = (scale - 1 - s) as nat;
        assert(lowest_terms(mag, scale) == (m, s));
        assert(m * pow10(e) == mag / 10);
        assert(pow10((scale - s) as nat) == 10 * pow10(e));
        assert(m * (10 * pow10(e)) == (m * pow10(e)) * 10) by (nonlinear_arith);
        assert((mag / 10) * 10 == mag);
    } else {
        assert(lowest_terms(mag, scale) == (mag, scale));
        assert(pow10(0) == 1);
        assert(mag * 1 == mag);
    }
}

/// The integer that stands for missing data.
pub const MISSING_I32: i32 = -9999;

/// Ten to the power `e`, for an exponent within the largest scale.
fn pow10_u64(e: u8) -> (r: u64)
    requires
        e <= MAX_SCALE,
    ensures
        r == pow10(e as nat),
        0 < r <= MANTISSA_LIMIT,
{
    let mut r: u64 = 1;
    let mut i: u8 = 0;
    proof {
        reveal_with_fuel(pow10, 20);
        assert(pow10(18) == MANTISSA_LIMIT);
    }
    while i < e
        invariant
            i <= e <= MAX_SCALE,
            r == pow10(i as nat),
            0 < r,
            r * pow10((18 - i) as nat) == MANTISSA_LIMIT,
        decreases e - i,
    {
        proof {
            let rest = pow10((18 - i - 1) as nat);
            assert(pow10((18 - i) as nat) == 10 * rest);
            assert(r * (10 * rest) == (r * 10) * rest) by (nonlinear_arith);
            assert(rest >= 1) by {
                lemma_pow10_positive((18 - i - 1) as nat);
            }
            assert((r * 10) * rest >= r * 10) by (nonlinear_arith)
                requires
                    rest >= 1,
            ;
        }
        r = r * 10;
        i = i + 1;
    }
    proof {
        lemma_pow10_positive((18 - i) as nat);
        assert(r * pow10((18 - i) as nat) >= r) by (nonlinear_arith)
            requires
                pow10((18 - i) as nat) >= 1,
        ;
    }
    r
}

/// A power of ten is positive.
pub proof fn lemma_pow10_positive(e: nat)
    ensures
        pow10(e) >= 1,
    decreases e,
{
    if e > 0 {
        lemma_pow10_positive((e - 1) as nat);
    }
}

/// From the nineteenth on, a power of ten is beyond every 64-bit integer.
pub proof fn lemma_pow10_beyond_i64(e: nat)
    requires
        e > MAX_SCALE,
    ensures
        pow10(e) > i64::MAX,
    decreases e,
{
    if e == 19 {
        reveal_with_fuel(pow10, 20);
    } else {
        lemma_pow10_beyond_i64((e - 1) as nat);
    }
}

/// Powers of ten multiply by adding their exponents.
pub proof fn lemma_pow10_add(a: nat, b: nat)
    ensures
        pow10(a + b) == pow10(a) * pow10(b),
    decreases a,
{
    if a == 0 {
        assert(pow10(0) == 1);
        assert(1 * pow10(b) == pow10(b));
    } else {
        lemma_pow10_add((a - 1) as nat, b);
        assert(pow10(a + b) == 10 * pow10((a - 1 + b) as nat));
        assert(10 * (pow10((a - 1) as nat) * pow10(b)) == (10 * pow10((a - 1) as nat)) * pow10(b))
            by (nonlinear_arith);
    }
}

/// Two well-formed decimals that are equal as numbers are equal in their
/// fields: lowest terms are unique.
pub proof fn lemma_equal_numbers_are_equal(a: Decimal, b: Decimal)
    requires
        a.wf(),
        b.wf(),
        a.mantissa * pow10(b.scale as nat) == b.mantissa * pow10(a.scale as nat),
    ensures
        a == b,
{
    if a.scale <= b.scale {
        lemma_scaled_equal(a, b);
    } else {
        lemma_scaled_equal(b, a);
    }
}

/// The case of `lemma_equal_numbers_are_equal` where the first scale is not
/// the greater one.
proof fn lemma_scaled_equal(a: Decimal, b: Decimal)
    requires
        a.wf(),
        b.wf(),
        a.scale <= b.scale,
        a.mantissa * pow10(b.scale as nat) == b.mantissa * pow10(a.scale as nat),
    ensures
        a == b,
{
    let d = (b.scale - a.scale) as nat;
    let pa = pow10(a.scale as nat) as int;
    let pd = pow10(d) as int;
    let am = a.mantissa as int;
    let bm = b.mantissa as int;
    lemma_pow10_add(a.scale as nat, d);
    lemma_pow10_positive(a.scale as nat);
    assert(pow10(b.scale as nat) == pa * pd);
    assert(am * (pa * pd) == (am * pd) * pa) by (nonlinear_arith);
    assert(bm == am * pd) by (nonlinear_arith)
        requires
            (am * pd) * pa == bm * pa,
            pa >= 1,
    ;
    if d > 0 {
        let rest = pow10((d - 1) as nat) as int;
        assert(pd == 10 * rest);
        assert(am * (10 * rest) == (am * rest) * 10) by (nonlinear_arith);
        assert(bm % 10 == 0);
    } else {
        assert(pow10(0) == 1);
        assert(am * 1 == am);
    }
}

/// In lowest terms the magnitude is 9999 with no fraction exactly when the
/// number is 9999, however many zeros its fraction was written with.
pub proof fn lemma_lowest_terms_of_9999(mag: nat, scale: nat)
    ensures
        lowest_terms(mag, scale) == (9999nat, 0nat) <==> mag == 9999 * pow10(scale),
    decreases scale,
{
    if scale > 0 && mag % 10 == 0 {
        lemma_lowest_terms_of_9999(mag / 10, (scale - 1) as nat);
        let p = pow10((scale - 1) as nat);
        assert(pow10(scale) == 10 * p);
        assert(9999 * (10 * p) == (9999 * p) * 10) by (nonlinear_arith);
    } else if scale > 0 {
        let p = pow10((scale - 1) as nat);
        assert(pow10(scale) == 10 * p);
        assert(9999 * (10 * p) == (9999 * p) * 10) by (nonlinear_arith);
    } else {
        assert(pow10(0) == 1);
    }
}

/// A token is read as the number that it writes, and told from the missing
/// value without fail.
///
/// The decimal that a token is read as is well formed and equal to the
/// number that the token writes. It stands for missing data exactly when that
/// number is minus 9999, however many zeros follow the decimal point; every
/// other number is kept as it is.
pub proof fn lemma_decoded_number(token: Seq<u8>)
    requires
        decimal_of_token(token) is Some,
    ensures
        ({
            let (negative, mag, scale) = decimal_text(token)->Some_0;
            let d = decimal_of_token(token)->Some_0;
            &&& d.wf()
            &&& d.scale <= scale
            &&& d.mantissa * pow10((scale - d.scale) as nat) == if negative {
                -(mag as int)
            } else {
                mag as int
            }
            &&& (d.is_missing() <==> negative && mag == 9999 * pow10(scale))
        }),
{
    let (negative, mag, scale) = decimal_text(token)->Some_0;
    let (m, s) = lowest_terms(mag, scale);
    lemma_lowest_terms(mag, scale);
    lemma_lowest_terms_of_9999(mag, scale);
    let rest = pow10((scale - s) as nat) as int;
    assert((-(m as int)) * rest == -(m * rest)) by (nonlinear_arith);
}

impl Decimal {
    /// Whether the decimal is in lowest terms and within the limits of the
    /// type.
    pub open spec fn wf(&self) -> bool {
        &&& -MANTISSA_LIMIT < self.mantissa < MANTISSA_LIMIT
        &&& self.scale <= MAX_SCALE
        &&& (self.scale == 0 || self.mantissa % 10 != 0)
    }

    /// Whether the number is greater than one half.
    pub open spec fn spec_exceeds_half(&self) -> bool {
        2 * self.mantissa > pow10(self.scale as nat)
    }

    /// The whole part of the number, held to the range of a byte: nothing
    /// below zero, nothing above 255.
    pub open spec fn spec_truncate_to_u8(&self) -> u8 {
        if self.mantissa <= 0 {
            0
        } else if (self.mantissa as int) / (pow10(self.scale as nat) as int) >= 255 {
            255
        } else {
            ((self.mantissa as int) / (pow10(self.scale as nat) as int)) as u8
        }
    }

    /// Brings a magnitude and a scale to lowest terms.
    fn reduce(negative: bool, mag: u64, scale: u8) -> (d: Decimal)
        requires
            mag < MANTISSA_LIMIT,
            scale <= MAX_SCALE,
        ensures
            d == decimal_of(negative, mag as nat, scale as nat),
            d.wf(),
    {
        let mut m: u64 = mag;
        let mut s: u8 = scale;
        while s > 0 && m % 10 == 0
            invariant
                m <= mag,
                s <= scale,
                lowest_terms(mag as nat, scale as nat) == lowest_terms(m as nat, s as nat),
            decreases s,
        {
            m = m / 10;
            s = s - 1;
        }
        if negative {
            Decimal { mantissa: -(m as i64), scale: s }
        } else {
            Decimal { mantissa: m as i64, scale: s }
        }
    }

    /// The decimal `mantissa` divided by ten to the power `scale`, in lowest
    /// terms; nothing where the arguments are beyond the limits of the type.
    pub fn new(mantissa: i64, scale: u8) -> (r: Option<Decimal>)
        ensures
            r == if -MANTISSA_LIMIT < mantissa < MANTISSA_LIMIT && scale <= MAX_SCALE {
                Some(decimal_of(mantissa < 0, vstd::math::abs(mantissa as int) as nat, scale as nat))
            } else {
                None
            },
            r is Some ==> r->0.wf(),
    {
        if scale > MAX_SCALE || mantissa <= -1_000_000_000_000_000_000 || mantissa
            >= 1_000_000_000_000_000_000 {
            return None;
        }
        if mantissa < 0 {
            Some(Decimal::reduce(true, (-mantissa) as u64, scale))
        } else {
            Some(Decimal::reduce(false, mantissa as u64, scale))
        }
    }

    /// The whole number `v` as a decimal.
    pub fn from_i32(v: i32) -> (d: Decimal)
        ensures
            d == (Decimal { mantissa: v as i64, scale: 0 }),
            d.wf(),
    {
        Decimal { mantissa: v as i64, scale: 0 }
    }

    /// Whether the decimal is the number that stands for missing data.
    pub open spec fn spec_is_missing(&self) -> bool {
        self.mantissa == MISSING_I32 && self.scale == 0
    }

    /// Whether the decimal is the number that stands for missing data.
    #[verifier::when_used_as_spec(spec_is_missing)]
    pub fn is_missing(&self) -> (r: bool)
        ensures
            r == self.spec_is_missing(),
    {
        self.mantissa == -9999 && self.scale == 0
    }

    /// Whether the number is greater than one half.
    #[verifier::when_used_as_spec(spec_exceeds_half)]
    pub fn exceeds_half(&self) -> (r: bool)
        requires
            self.wf(),
        ensures
            r == self.spec_exceeds_half(),
    {
        let p: u64 = pow10_u64(self.scale);
        2 * self.mantissa > p as i64
    }

    /// The whole part of the number as a byte; a number below zero gives 0
    /// and one above 255 gives 255.
    #[verifier::when_used_as_spec(spec_truncate_to_u8)]
    pub fn truncate_to_u8(&self) -> (r: u8)
        ensures
            r == self.spec_truncate_to_u8(),
    {
        if self.mantissa <= 0 {
            return 0;
        }
        if self.scale > MAX_SCALE {
            proof {
                lemma_pow10_beyond_i64(self.scale as nat);
                let p = pow10(self.scale as nat) as int;
                let m = self.mantissa as int;
                assert(m / p == 0) by (nonlinear_arith)
                    requires
                        0 <= m < p,
                ;
            }
            return 0;
        }
        let p: u64 = pow10_u64(self.scale);
        let q: u64 = (self.mantissa as u64) / p;
        if q >= 255 {
            255
        } else {
            q as u8
        }
    }

    /// Reads a decimal from a whole token.
    ///
    /// The token is an optional `+` or `-`, digits, and optionally a point and
    /// more digits, with one digit at least. A token of another shape gives
    /// nothing, and so does one with more than eighteen digits after the point
    /// or with a magnitude of ten to the eighteenth or more.
    pub fn parse(token: &[u8]) -> (r: Option<Decimal>)
        ensures
            r == decimal_of_token(token@),
            r is Some ==> r->0.wf(),
    {
        let n: usize = token.len();
        let mut start: usize = 0;
        let mut negative: bool = false;
        if n > 0 && (token[0] == PLUS || token[0] == MINUS) {
            negative = token[0] == MINUS;
            start = 1;
        }
        let ghost body = token@.subrange(start as int, n as int);
        assert(unsigned_part(token@) =~= body);
        let (split, mag, fits) = read_digits(token, start, 0, true, Ghost(Seq::empty()));
        let ghost w = split - start;
        let ghost whole = body.take(w);
        let ghost tail = body.skip(w);
        proof {
            assert(whole =~= token@.subrange(start as int, split as int));
            assert(Seq::<u8>::empty() + whole =~= whole);
            assert(split < n ==> body[w] == token@[split as int]);
            lemma_leading_digits(body, w);
            assert(tail =~= token@.subrange(split as int, n as int));
        }
        if split == n {
            proof {
                assert(whole + tail =~= whole);
            }
            if split == start || !fits {
                return None;
            }
            return Some(Decimal::reduce(negative, mag, 0));
        }
        assert(tail[0] == token@[split as int]);
        if token[split] != DOT {
            return None;
        }
        let fstart: usize = split + 1;
        let ghost frac = tail.drop_first();
        assert(frac =~= token@.subrange(fstart as int, n as int));
        let (end, mag, fits) = read_digits(token, fstart, mag, fits, Ghost(whole));
        if end != n {
            assert(frac[end - fstart] == token@[end as int]);
            return None;
        }
        if n - start == 1 || !fits || n - fstart > 18 {
            return None;
        }
        Some(Decimal::reduce(negative, mag, (n - fstart) as u8))
    }
}

/// Reads the run of digits of `token` that begins at `from`, and goes on
/// counting from the number `acc` that the digits `before` wrote. Gives the
/// offset after the run and the number that all the digits write together,
/// as long as it stays under the limit of a mantissa.
fn read_digits(token: &[u8], from: usize, acc: u64, fits: bool, Ghost(before): Ghost<Seq<u8>>) -> (r:
    (usize, u64, bool))
    requires
        from <= token@.len(),
        fits ==> acc == digits_value(before) && acc < MANTISSA_LIMIT,
        !fits ==> digits_value(before) >= MANTISSA_LIMIT,
    ensures
        from <= r.0 <= token@.len(),
        all_digits(token@.subrange(from as int, r.0 as int)),
        r.0 == token@.len() || !is_digit(token@[r.0 as int]),
        r.2 ==> r.1 == digits_value(before + token@.subrange(from as int, r.0 as int)) && r.1
            < MANTISSA_LIMIT,
        !r.2 ==> digits_value(before + token@.subrange(from as int, r.0 as int))
            >= MANTISSA_LIMIT,
{
    let n: usize = token.len();
    let mut i: usize = from;
    let mut mag: u64 = acc;
    let mut fits: bool = fits;
    assert(before + token@.subrange(from as int, i as int) =~= before);
    while i < n && is_digit(token[i])
        invariant
            from <= i <= n,
            n == token@.len(),
            all_digits(token@.subrange(from as int, i as int)),
            fits ==> mag == digits_value(before + token@.subrange(from as int, i as int)) && mag
                < MANTISSA_LIMIT,
            !fits ==> digits_value(before + token@.subrange(from as int, i as int))
                >= MANTISSA_LIMIT,
        decreases n - i,
    {
        let c: u8 = token[i];
        proof {
            let seen = before + token@.subrange(from as int, i as int);
            lemma_digits_value_push(seen, c);
            assert(seen.push(c) =~= before + token@.subrange(from as int, i + 1));
        }
        if fits {
            mag = mag * 10 + (c - 0x30) as u64;
            if mag >= MANTISSA_LIMIT {
                fits = false;
            }
        }
        i += 1;
    }
    (i, mag, fits)
}

} // verus!
