//! Progress as an exact share: a number of hundredths written as a fraction,
//! read from decimal text or computed from byte counts.

use vstd::prelude::*;

verus! {

/// A percentage, exactly: so many hundredths of the whole, as a fraction
/// `num / den` whose denominator is never zero. A percentage that was
/// computed, or read from a number whose units and scale fit in 128 bits,
/// is kept as the two parts of its fraction; one read from a longer number
/// is kept as that number was written. The fraction is not reduced, so two
/// values may stand for the same percentage (`1/2` and `5/10`) and still
/// differ under `==`.
#[derive(Debug, PartialEq, Eq)]
pub struct Percent {
    kept: Kept,
}

/// How a percentage is kept.
#[derive(Clone, Debug, PartialEq, Eq)]
enum Kept {
    /// The two parts of the fraction.
    Fraction { numerator: u128, denominator: u128 },
    /// A decimal number, as it was written.
    Written(Vec<char>),
}

impl Percent {
    #[verifier::type_invariant]
    spec fn well_formed(self) -> bool {
        self.kept matches Kept::Fraction { denominator, .. } ==> denominator > 0
    }

    /// The fraction's numerator.
    pub closed spec fn num(self) -> nat {
        match self.kept {
            Kept::Fraction { numerator, .. } => numerator as nat,
            Kept::Written(text) => number_units(text@),
        }
    }

    /// The fraction's denominator.
    pub closed spec fn den(self) -> nat {
        match self.kept {
            Kept::Fraction { denominator, .. } => denominator as nat,
            Kept::Written(text) => number_scale(text@),
        }
    }

    /// The percentage is kept as the two parts of its fraction.
    pub closed spec fn is_fraction(self) -> bool {
        self.kept is Fraction
    }

    /// The number as it was written, for a percentage that is kept so.
    pub closed spec fn written(self) -> Seq<char> {
        match self.kept {
            Kept::Fraction { .. } => Seq::empty(),
            Kept::Written(text) => text@,
        }
    }

    /// This percentage is exactly one hundred.
    pub open spec fn is_full(self) -> bool {
        self.num() == 100 * self.den()
    }

    /// The fraction `numerator / denominator`, unless the denominator is zero.
    pub fn new(numerator: u128, denominator: u128) -> (r: Option<Percent>)
        ensures
            r is Some <==> denominator > 0,
            r matches Some(p) ==> p.num() == numerator && p.den() == denominator
                && p.is_fraction(),
    {
        if denominator == 0 {
            None
        } else {
            Some(Percent { kept: Kept::Fraction { numerator, denominator } })
        }
    }

    /// Nothing done yet: `0/1`.
    pub fn zero() -> (p: Percent)
        ensures
            p.num() == 0,
            p.den() == 1,
            p.is_fraction(),
    {
        Percent { kept: Kept::Fraction { numerator: 0, denominator: 1 } }
    }

    /// All done: `100/1`.
    pub fn full() -> (p: Percent)
        ensures
            p.num() == 100,
            p.den() == 1,
            p.is_full(),
            p.is_fraction(),
    {
        Percent { kept: Kept::Fraction { numerator: 100, denominator: 1 } }
    }

    /// The numerator and the denominator, which is above zero, of a
    /// percentage that is kept as a fraction.
    pub fn as_fraction(&self) -> (r: Option<(u128, u128)>)
        ensures
            r is Some <==> self.is_fraction(),
            r matches Some(pair) ==> pair.0 == self.num() && pair.1 == self.den() && pair.1 > 0,
    {
        proof {
            use_type_invariant(self);
        }
        match &self.kept {
            Kept::Fraction { numerator, denominator } => Some((*numerator, *denominator)),
            Kept::Written(_) => None,
        }
    }

    /// The number as it was written, of a percentage that is kept so.
    pub fn as_written(&self) -> (r: Option<String>)
        ensures
            r is Some <==> !self.is_fraction(),
            r matches Some(text) ==> text@ == self.written() && self.num() == number_units(
                text@,
            ) && self.den() == number_scale(text@),
    {
        match &self.kept {
            Kept::Fraction { .. } => None,
            Kept::Written(text) => Some(crate::text::string_of(text)),
        }
    }

}

impl Clone for Percent {
    /// A copy of the percentage, kept as the percentage is kept.
    fn clone(&self) -> (r: Percent)
        ensures
            r.num() == self.num(),
            r.den() == self.den(),
            r.is_fraction() == self.is_fraction(),
            r.written() == self.written(),
    {
        proof {
            use_type_invariant(self);
        }
        match &self.kept {
            Kept::Fraction { numerator, denominator } => Percent {
                kept: Kept::Fraction { numerator: *numerator, denominator: *denominator },
            },
            Kept::Written(text) => {
                let copy = piece(text, 0, text.len());
                assert(copy@ =~= text@);
                Percent { kept: Kept::Written(copy) }
            },
        }
    }
}

/// One of the ten decimal digits `0` to `9`.
pub open spec fn is_digit(c: char) -> bool {
    0x30 <= c as u32 <= 0x39
}

/// The number a decimal digit stands for.
pub open spec fn digit_value(c: char) -> nat {
    (c as u32 - 0x30) as nat
}

/// Every character of the text is a decimal digit.
pub open spec fn all_digits(s: Seq<char>) -> bool {
    forall|i: int| 0 <= i < s.len() ==> is_digit(#[trigger] s[i])
}

/// The number a run of decimal digits stands for; the empty run stands for 0.
pub open spec fn digits_value(s: Seq<char>) -> nat
    decreases s.len(),
{
    if s.len() == 0 {
        0
    } else {
        digits_value(s.drop_last()) * 10 + digit_value(s.last())
    }
}

/// Ten to the power `n`.
pub open spec fn pow10(n: nat) -> nat
    decreases n,
{
    if n == 0 {
        1
    } else {
        10 * pow10((n - 1) as nat)
    }
}

/// The position of the first decimal point in the text, or the text's length
/// where it holds none.
pub open spec fn point_position(s: Seq<char>) -> int
    decreases s.len(),
{
    if s.len() == 0 || s[0] == '.' {
        0
    } else {
        1 + point_position(s.drop_first())
    }
}

/// What stands before the first decimal point.
pub open spec fn whole_part(s: Seq<char>) -> Seq<char> {
    s.take(point_position(s))
}

/// What stands after the first decimal point; empty where there is no point.
pub open spec fn fraction_part(s: Seq<char>) -> Seq<char> {
    if point_position(s) < s.len() {
        s.skip(point_position(s) + 1)
    } else {
        Seq::empty()
    }
}

/// The text is a plain decimal numeral: decimal digits with at most one
/// decimal point among them, and at least one digit. `7`, `7.`, `.5` and
/// `45.3` are numerals; the empty text, `.`, `1.2.3`, `-1`, `1e3` are not.
pub open spec fn is_numeral(s: Seq<char>) -> bool {
    &&& all_digits(whole_part(s))
    &&& all_digits(fraction_part(s))
    &&& whole_part(s).len() + fraction_part(s).len() > 0
}

/// The denominator under which a numeral's value is a whole number: ten to
/// the number of digits after the point.
pub open spec fn numeral_scale(s: Seq<char>) -> nat {
    pow10(fraction_part(s).len())
}

/// The numeral's value times `numeral_scale`: the number that its digits
/// spell once the point is left out.
pub open spec fn numeral_units(s: Seq<char>) -> nat {
    digits_value(whole_part(s)) * numeral_scale(s) + digits_value(fraction_part(s))
}

/// The point's position lies within the text, no point stands before it,
/// and a point stands at it unless it is the text's end.
pub proof fn lemma_point_position(s: Seq<char>)
    ensures
        0 <= point_position(s) <= s.len(),
        forall|i: int| 0 <= i < point_position(s) ==> s[i] != '.',
        point_position(s) < s.len() ==> s[point_position(s)] == '.',
    decreases s.len(),
{
    if s.len() == 0 || s[0] == '.' {
    } else {
        let t = s.drop_first();
        lemma_point_position(t);
        assert forall|i: int| 0 <= i < point_position(s) implies s[i] != '.' by {
            if i > 0 {
                assert(s[i] == t[i - 1]);
            }
        }
    }
}

/// Where no point stands before position `k` and one stands at `k` (or `k`
/// is the text's end), `k` is the point's position.
pub proof fn lemma_point_position_is(s: Seq<char>, k: int)
    requires
        0 <= k <= s.len(),
        forall|i: int| 0 <= i < k ==> s[i] != '.',
        k < s.len() ==> s[k] == '.',
    ensures
        point_position(s) == k,
    decreases k,
{
    if k > 0 {
        let t = s.drop_first();
        assert(s[0] != '.');
        assert forall|i: int| 0 <= i < k - 1 implies t[i] != '.' by {
            assert(t[i] == s[i + 1]);
        }
        lemma_point_position_is(t, k - 1);
    }
}

/// A numeral is not empty, and each of its characters is a digit or a point.
pub proof fn lemma_numeral_chars(s: Seq<char>)
    requires
        is_numeral(s),
    ensures
        s.len() > 0,
        forall|i: int| 0 <= i < s.len() ==> is_digit(#[trigger] s[i]) || s[i] == '.',
{
    lemma_point_position(s);
    let p = point_position(s);
    assert forall|i: int| 0 <= i < s.len() implies is_digit(#[trigger] s[i]) || s[i] == '.' by {
        if i < p {
            assert(whole_part(s)[i] == s[i]);
        } else if i > p {
            assert(fraction_part(s)[i - p - 1] == s[i]);
        }
    }
}

/// A run of digits stands for at least as much as any piece it begins with.
pub proof fn lemma_digits_value_grows(s: Seq<char>, k: int)
    requires
        0 <= k <= s.len(),
    ensures
        digits_value(s.take(k)) <= digits_value(s),
    decreases s.len() - k,
{
    if k == s.len() {
        assert(s.take(k) =~= s);
    } else {
        lemma_digits_value_grows(s.drop_last(), k);
        assert(s.drop_last().take(k) =~= s.take(k));
    }
}

/// Powers of ten grow with the exponent, and none is zero.
pub proof fn lemma_pow10_grows(a: nat, b: nat)
    requires
        a <= b,
    ensures
        1 <= pow10(a) <= pow10(b),
    decreases b,
{
    if b == 0 {
    } else if a == b {
        lemma_pow10_grows((a - 1) as nat, (b - 1) as nat);
    } else {
        lemma_pow10_grows(a, (b - 1) as nat);
    }
}

/// The number that the digits from `from` up to `to` stand for, or `None`
/// where that number does not fit in 128 bits.
fn digits_number(s: &Vec<char>, from: usize, to: usize) -> (r: Option<u128>)
    requires
        from <= to <= s.len(),
        all_digits(s@.subrange(from as int, to as int)),
    ensures
        match r {
            Some(v) => v == digits_value(s@.subrange(from as int, to as int)),
            None => digits_value(s@.subrange(from as int, to as int)) > u128::MAX,
        },
{
    let ghost run = s@.subrange(from as int, to as int);
    let mut acc: u128 = 0;
    let mut i: usize = from;
    assert(run.take(0) =~= Seq::<char>::empty());
    while i < to
        invariant
            from <= i <= to <= s.len(),
            run == s@.subrange(from as int, to as int),
            all_digits(run),
            acc == digits_value(run.take(i - from)),
        decreases to - i,
    {
        let c = s[i];
        assert(run[i - from] == c);
        assert(is_digit(c));
        let d: u128 = (c as u32 - 0x30) as u128;
        let ghost next = run.take(i - from + 1);
        assert(next.drop_last() =~= run.take(i - from));
        assert(next.last() == c);
        if acc > (u128::MAX - d) / 10 {
            proof {
                lemma_digits_value_grows(run, i - from + 1);
            }
            return None;
        }
        acc = acc * 10 + d;
        i = i + 1;
    }
    assert(run.take(to - from) =~= run);
    Some(acc)
}

/// Ten to the power `n`, or `None` where it does not fit in 128 bits.
fn power_of_ten(n: u128) -> (r: Option<u128>)
    ensures
        match r {
            Some(v) => v == pow10(n as nat),
            None => pow10(n as nat) > u128::MAX,
        },
{
    let mut acc: u128 = 1;
    let mut i: u128 = 0;
    while i < n
        invariant
            i <= n,
            acc == pow10(i as nat),
        decreases n - i,
    {
        if acc > u128::MAX / 10 {
            proof {
                lemma_pow10_grows((i + 1) as nat, n as nat);
            }
            return None;
        }
        acc = acc * 10;
        i = i + 1;
    }
    Some(acc)
}

/// Tests whether the characters from `from` up to `to` are all decimal digits.
fn digits_only(s: &Vec<char>, from: usize, to: usize) -> (b: bool)
    requires
        from <= to <= s.len(),
    ensures
        b == all_digits(s@.subrange(from as int, to as int)),
{
    let mut i: usize = from;
    while i < to
        invariant
            from <= i <= to <= s.len(),
            forall|k: int| from <= k < i ==> is_digit(s@[k]),
        decreases to - i,
    {
        let u: u32 = s[i] as u32;
        if u < 0x30 || u > 0x39 {
            assert(s@.subrange(from as int, to as int)[i - from] == s@[i as int]);
            return false;
        }
        i = i + 1;
    }
    assert forall|k: int| 0 <= k < to - from implies is_digit(
        #[trigger] s@.subrange(from as int, to as int)[k],
    ) by {
        assert(s@.subrange(from as int, to as int)[k] == s@[k + from]);
    }
    true
}

/// A sign: `+` or `-`.
pub open spec fn is_sign(c: char) -> bool {
    c == '+' || c == '-'
}

/// The letter that begins an exponent: `e` or `E`.
pub open spec fn is_exponent_mark(c: char) -> bool {
    c == 'e' || c == 'E'
}

/// 1 where the text begins with a sign, else 0.
pub open spec fn sign_length(s: Seq<char>) -> int {
    if s.len() > 0 && is_sign(s[0]) {
        1
    } else {
        0
    }
}

/// The text begins with `-`.
pub open spec fn has_minus(s: Seq<char>) -> bool {
    s.len() > 0 && s[0] == '-'
}

/// The text without the sign that it begins with, if it begins with one.
pub open spec fn unsigned_part(s: Seq<char>) -> Seq<char> {
    s.skip(sign_length(s))
}

/// The position of the first exponent mark in the text, or the text's
/// length where it holds none.
pub open spec fn mark_position(s: Seq<char>) -> int
    decreases s.len(),
{
    if s.len() == 0 || is_exponent_mark(s[0]) {
        0
    } else {
        1 + mark_position(s.drop_first())
    }
}

/// What stands between the sign and the exponent mark.
pub open spec fn mantissa(s: Seq<char>) -> Seq<char> {
    unsigned_part(s).take(mark_position(unsigned_part(s)))
}

/// The text holds an exponent mark.
pub open spec fn has_exponent(s: Seq<char>) -> bool {
    mark_position(unsigned_part(s)) < unsigned_part(s).len()
}

/// What stands after the exponent mark; empty where there is no mark.
pub open spec fn exponent_text(s: Seq<char>) -> Seq<char> {
    if has_exponent(s) {
        unsigned_part(s).skip(mark_position(unsigned_part(s)) + 1)
    } else {
        Seq::empty()
    }
}

/// The exponent without its sign.
pub open spec fn exponent_digits(s: Seq<char>) -> Seq<char> {
    unsigned_part(exponent_text(s))
}

/// The text is a decimal number: an optional sign, a plain decimal numeral,
/// and optionally an exponent, which is `e` or `E`, an optional sign and at
/// least one digit. `45.3`, `+7`, `-0.5`, `5e1`, `1.5E-3` are numbers; the
/// empty text, `e5`, `5e`, `5e+`, `1.2.3`, `inf`, `nan` are not.
pub open spec fn is_number(s: Seq<char>) -> bool {
    &&& is_numeral(mantissa(s))
    &&& has_exponent(s) ==> exponent_digits(s).len() > 0 && all_digits(exponent_digits(s))
}

/// The size of the exponent, without its sign; 0 where there is none.
pub open spec fn exponent_size(s: Seq<char>) -> nat {
    digits_value(exponent_digits(s))
}

/// The numerator of a number's size as a fraction: the units of its
/// numeral, times ten to the exponent where that is not negative.
pub open spec fn number_units(s: Seq<char>) -> nat {
    if has_minus(exponent_text(s)) {
        numeral_units(mantissa(s))
    } else {
        numeral_units(mantissa(s)) * pow10(exponent_size(s))
    }
}

/// The denominator of a number's size as a fraction: the scale of its
/// numeral, times ten to the size of the exponent where that is negative.
/// The number's size is exactly `number_units / number_scale`.
pub open spec fn number_scale(s: Seq<char>) -> nat {
    if has_minus(exponent_text(s)) {
        numeral_scale(mantissa(s)) * pow10(exponent_size(s))
    } else {
        numeral_scale(mantissa(s))
    }
}

/// The number is below zero: it begins with `-` and is not zero.
pub open spec fn is_negative(s: Seq<char>) -> bool {
    has_minus(s) && number_units(s) > 0
}

/// The number's units and scale both fit in 128 bits.
pub open spec fn number_fits(s: Seq<char>) -> bool {
    number_units(s) <= u128::MAX && number_scale(s) <= u128::MAX
}

/// The text is a number from 0 to 100: what a percentage is read from.
pub open spec fn is_percentage(s: Seq<char>) -> bool {
    &&& is_number(s)
    &&& !is_negative(s)
    &&& number_units(s) <= 100 * number_scale(s)
}

/// The mark's position lies within the text, no mark stands before it, and
/// a mark stands at it unless it is the text's end.
pub proof fn lemma_mark_position(s: Seq<char>)
    ensures
        0 <= mark_position(s) <= s.len(),
        forall|i: int| 0 <= i < mark_position(s) ==> !is_exponent_mark(s[i]),
        mark_position(s) < s.len() ==> is_exponent_mark(s[mark_position(s)]),
    decreases s.len(),
{
    if s.len() == 0 || is_exponent_mark(s[0]) {
    } else {
        let t = s.drop_first();
        lemma_mark_position(t);
        assert forall|i: int| 0 <= i < mark_position(s) implies !is_exponent_mark(s[i]) by {
            if i > 0 {
                assert(s[i] == t[i - 1]);
            }
        }
    }
}

/// Where no mark stands before position `k` and one stands at `k` (or `k`
/// is the text's end), `k` is the mark's position.
pub proof fn lemma_mark_position_is(s: Seq<char>, k: int)
    requires
        0 <= k <= s.len(),
        forall|i: int| 0 <= i < k ==> !is_exponent_mark(s[i]),
        k < s.len() ==> is_exponent_mark(s[k]),
    ensures
        mark_position(s) == k,
    decreases k,
{
    if k > 0 {
        let t = s.drop_first();
        assert(!is_exponent_mark(s[0]));
        assert forall|i: int| 0 <= i < k - 1 implies !is_exponent_mark(t[i]) by {
            assert(t[i] == s[i + 1]);
        }
        lemma_mark_position_is(t, k - 1);
    }
}

/// Ten to a power is greater than the power.
pub proof fn lemma_pow10_exceeds(n: nat)
    ensures
        pow10(n) > n,
    decreases n,
{
    if n > 0 {
        lemma_pow10_exceeds((n - 1) as nat);
    }
}

/// The scale of a number is at least one.
pub proof fn lemma_number_scale_positive(s: Seq<char>)
    ensures
        number_scale(s) >= 1,
{
    let base = numeral_scale(mantissa(s));
    let p = pow10(exponent_size(s));
    lemma_pow10_grows(0, fraction_part(mantissa(s)).len());
    lemma_pow10_grows(0, exponent_size(s));
    assert(base * p >= 1) by (nonlinear_arith)
        requires
            base >= 1,
            p >= 1,
    ;
}

/// A number is not empty, and each of its characters is a digit, a point,
/// a sign or an exponent mark.
pub proof fn lemma_number_chars(s: Seq<char>)
    requires
        is_number(s),
    ensures
        s.len() > 0,
        forall|i: int|
            0 <= i < s.len() ==> is_digit(#[trigger] s[i]) || s[i] == '.' || is_sign(s[i])
                || is_exponent_mark(s[i]),
{
    let k = sign_length(s);
    let u = unsigned_part(s);
    let mk = mark_position(u);
    let m = mantissa(s);
    lemma_mark_position(u);
    lemma_numeral_chars(m);
    assert forall|i: int| 0 <= i < s.len() implies is_digit(#[trigger] s[i]) || s[i] == '.'
        || is_sign(s[i]) || is_exponent_mark(s[i]) by {
        if i >= k {
            let j = i - k;
            assert(u[j] == s[i]);
            if j < mk {
                assert(m[j] == u[j]);
            } else if j > mk {
                let et = exponent_text(s);
                let t = j - mk - 1;
                assert(et[t] == u[j]);
                let ek = sign_length(et);
                if t >= ek {
                    assert(exponent_digits(s)[t - ek] == et[t]);
                }
            }
        }
    }
}

/// A copy of the characters from `from` up to `to`.
fn piece(text: &Vec<char>, from: usize, to: usize) -> (r: Vec<char>)
    requires
        from <= to <= text.len(),
    ensures
        r@ == text@.subrange(from as int, to as int),
{
    let mut r: Vec<char> = Vec::new();
    let mut i: usize = from;
    while i < to
        invariant
            from <= i <= to <= text.len(),
            r@ =~= text@.subrange(from as int, i as int),
        decreases to - i,
    {
        r.push(text[i]);
        i = i + 1;
    }
    r
}

/// The product of two numbers, or `None` where it does not fit in 128 bits.
fn product(a: u128, b: u128) -> (r: Option<u128>)
    ensures
        match r {
            Some(v) => v == a * b,
            None => a * b > u128::MAX,
        },
{
    if a != 0 && b > u128::MAX / a {
        assert(a * b > u128::MAX) by (nonlinear_arith)
            requires
                a > 0,
                b > (u128::MAX as int) / (a as int),
        ;
        return None;
    }
    assert(a * b <= u128::MAX) by (nonlinear_arith)
        requires
            a == 0 || b <= (u128::MAX as int) / (a as int),
            0 <= a,
            0 <= b,
    ;
    Some(a * b)
}

/// Ten to a sum is the product of the powers.
pub proof fn lemma_pow10_adds(a: nat, b: nat)
    ensures
        pow10(a + b) == pow10(a) * pow10(b),
    decreases b,
{
    if b == 0 {
        assert(pow10(a) * 1 == pow10(a));
    } else {
        lemma_pow10_adds(a, (b - 1) as nat);
        let x = pow10(a);
        let y = pow10((b - 1) as nat);
        assert(pow10(a + b) == 10 * pow10((a + b - 1) as nat));
        assert(10 * (x * y) == x * (10 * y)) by (nonlinear_arith);
    }
}

/// The number that two runs of digits stand for, one after the other.
pub proof fn lemma_digits_value_joined(a: Seq<char>, b: Seq<char>)
    ensures
        digits_value(a + b) == digits_value(a) * pow10(b.len()) + digits_value(b),
    decreases b.len(),
{
    if b.len() == 0 {
        assert(a + b =~= a);
        assert(digits_value(a) * 1 == digits_value(a));
    } else {
        let shorter = b.drop_last();
        lemma_digits_value_joined(a, shorter);
        assert((a + b).drop_last() =~= a + shorter);
        assert((a + b).last() == b.last());
        let x = digits_value(a);
        let p = pow10(shorter.len());
        let y = digits_value(shorter);
        let d = digit_value(b.last());
        assert(pow10(b.len()) == 10 * p);
        assert((x * p + y) * 10 + d == x * (10 * p) + (y * 10 + d)) by (nonlinear_arith);
    }
}

/// A run of digits stands for less than ten to its length.
pub proof fn lemma_digits_value_bound(s: Seq<char>)
    requires
        all_digits(s),
    ensures
        digits_value(s) < pow10(s.len()),
    decreases s.len(),
{
    if s.len() > 0 {
        let t = s.drop_last();
        assert forall|i: int| 0 <= i < t.len() implies is_digit(#[trigger] t[i]) by {
            assert(t[i] == s[i]);
        }
        lemma_digits_value_bound(t);
        assert(is_digit(s[s.len() - 1]));
    }
}

/// A number with a remainder below the unit is at most a hundred units
/// where its whole part is below a hundred, or is a hundred with nothing
/// left over.
pub proof fn lemma_hundred_units(whole: nat, rest: nat, unit: nat)
    requires
        rest < unit,
    ensures
        (whole * unit + rest <= 100 * unit) <==> (whole < 100 || (whole == 100 && rest == 0)),
{
    if whole < 100 {
        assert(whole * unit + rest <= 100 * unit) by (nonlinear_arith)
            requires
                whole <= 99,
                rest < unit,
        ;
    } else if whole == 100 {
    } else {
        assert(whole * unit + rest > 100 * unit) by (nonlinear_arith)
            requires
                whole >= 101,
                unit >= 1,
        ;
    }
}

/// Both sides of a comparison may be divided by a factor that is not zero.
proof fn lemma_cancel_factor(x: nat, y: nat, factor: nat)
    requires
        factor >= 1,
    ensures
        (x * factor <= y * factor) <==> x <= y,
{
    if x <= y {
        assert(x * factor <= y * factor) by (nonlinear_arith)
            requires
                x <= y,
        ;
    } else {
        assert(x * factor > y * factor) by (nonlinear_arith)
            requires
                x > y,
                factor >= 1,
        ;
    }
}

/// A number taken apart.
struct Anatomy {
    /// The digits of the numeral, those before the point and then those
    /// after it.
    digits: Vec<char>,
    /// How many of the digits stand before the point.
    whole: usize,
    /// The size of the exponent; `None` where it is beyond 128 bits.
    exponent: Option<u128>,
    /// Whether the exponent is negative.
    down: bool,
    /// Whether the number begins with `-`.
    minus: bool,
}

/// The parts are those of the number.
spec fn describes(parts: Anatomy, s: Seq<char>) -> bool {
    let m = mantissa(s);
    &&& parts.digits@ == whole_part(m) + fraction_part(m)
    &&& all_digits(parts.digits@)
    &&& parts.whole == whole_part(m).len()
    &&& match parts.exponent {
        Some(size) => size == exponent_size(s),
        None => exponent_size(s) > u128::MAX,
    }
    &&& parts.down == has_minus(exponent_text(s))
    &&& parts.minus == has_minus(s)
}

/// The units and the scale of a number, from its parts.
proof fn lemma_parts_value(parts: Anatomy, s: Seq<char>)
    requires
        describes(parts, s),
    ensures
        number_units(s) == if parts.down {
            digits_value(parts.digits@)
        } else {
            digits_value(parts.digits@) * pow10(exponent_size(s))
        },
        number_scale(s) == if parts.down {
            pow10((parts.digits@.len() - parts.whole) as nat) * pow10(exponent_size(s))
        } else {
            pow10((parts.digits@.len() - parts.whole) as nat)
        },
        pow10(exponent_size(s)) >= 1,
        pow10((parts.digits@.len() - parts.whole) as nat) >= 1,
{
    let m = mantissa(s);
    lemma_digits_value_joined(whole_part(m), fraction_part(m));
    lemma_pow10_grows(0, exponent_size(s));
    lemma_pow10_grows(0, fraction_part(m).len());
}

/// The digits of the plain numeral that stands from `from` up to `to`,
/// those before the point and then those after it, and how many stand
/// before the point; `None` where no plain numeral stands there.
fn numeral_digits(text: &Vec<char>, from: usize, to: usize) -> (r: Option<(Vec<char>, usize)>)
    requires
        from <= to <= text.len(),
    ensures
        r is Some <==> is_numeral(text@.subrange(from as int, to as int)),
        r matches Some(pair) ==> {
            let m = text@.subrange(from as int, to as int);
            &&& pair.0@ == whole_part(m) + fraction_part(m)
            &&& all_digits(pair.0@)
            &&& pair.1 == whole_part(m).len()
        },
{
    let ghost m = text@.subrange(from as int, to as int);
    let mut point: usize = from;
    while point < to && text[point] != '.'
        invariant
            from <= point <= to <= text.len(),
            forall|i: int| from <= i < point ==> text@[i] != '.',
        decreases to - point,
    {
        point = point + 1;
    }
    let after: usize = if point < to {
        point + 1
    } else {
        point
    };
    let ghost w = text@.subrange(from as int, point as int);
    let ghost f = text@.subrange(after as int, to as int);
    proof {
        assert forall|i: int| 0 <= i < point - from implies m[i] != '.' by {
            assert(m[i] == text@[i + from]);
        }
        if point < to {
            assert(m[point - from] == text@[point as int]);
        }
        lemma_point_position_is(m, point - from);
        assert(whole_part(m) =~= w);
        assert(fraction_part(m) =~= f);
    }
    if !digits_only(text, from, point) || !digits_only(text, after, to) {
        return None;
    }
    if point == from && after == to {
        return None;
    }
    let mut digits = piece(text, from, point);
    let mut i: usize = after;
    while i < to
        invariant
            after <= i <= to <= text.len(),
            w == text@.subrange(from as int, point as int),
            digits@ =~= w + text@.subrange(after as int, i as int),
        decreases to - i,
    {
        digits.push(text[i]);
        i = i + 1;
    }
    assert(digits@ =~= w + f);
    assert forall|k: int| 0 <= k < digits@.len() implies is_digit(#[trigger] digits@[k]) by {
        if k < w.len() {
            assert(digits@[k] == w[k]);
        } else {
            assert(digits@[k] == f[k - w.len()]);
        }
    }
    Some((digits, point - from))
}

/// The size and the direction of the exponent that stands from `from` to
/// the text's end, behind its mark: an optional sign and at least one
/// digit. `None` where no exponent stands there; a size of `None` where it
/// is beyond 128 bits.
fn exponent_parts(text: &Vec<char>, from: usize) -> (r: Option<(Option<u128>, bool)>)
    requires
        from <= text.len(),
    ensures
        ({
            let behind = text@.subrange(from as int, text.len() as int);
            let digits = unsigned_part(behind);
            &&& r is Some <==> digits.len() > 0 && all_digits(digits)
            &&& r matches Some(pair) ==> {
                &&& pair.1 == has_minus(behind)
                &&& match pair.0 {
                    Some(size) => size == digits_value(digits),
                    None => digits_value(digits) > u128::MAX,
                }
            }
        }),
{
    let len = text.len();
    let ghost behind = text@.subrange(from as int, len as int);
    let down = from < len && text[from] == '-';
    let digits_at: usize = if from < len && (text[from] == '+' || text[from] == '-') {
        from + 1
    } else {
        from
    };
    proof {
        if from < len {
            assert(behind[0] == text@[from as int]);
        }
        assert(unsigned_part(behind) =~= text@.subrange(digits_at as int, len as int));
    }
    if digits_at == len || !digits_only(text, digits_at, len) {
        return None;
    }
    Some((digits_number(text, digits_at, len), down))
}

/// Takes a number apart; `None` for what is no number.
fn take_apart(text: &Vec<char>) -> (r: Option<Anatomy>)
    ensures
        r is Some <==> is_number(text@),
        r matches Some(parts) ==> describes(parts, text@),
{
    let len = text.len();
    let start: usize = if len > 0 && (text[0] == '+' || text[0] == '-') {
        1
    } else {
        0
    };
    let minus = len > 0 && text[0] == '-';
    let mut mark: usize = start;
    while mark < len && text[mark] != 'e' && text[mark] != 'E'
        invariant
            start <= mark <= len,
            len == text.len(),
            forall|i: int| start <= i < mark ==> !is_exponent_mark(text@[i]),
        decreases len - mark,
    {
        mark = mark + 1;
    }
    let ghost rest = unsigned_part(text@);
    proof {
        assert forall|i: int| 0 <= i < mark - start implies !is_exponent_mark(rest[i]) by {
            assert(rest[i] == text@[i + start]);
        }
        if mark < len {
            assert(rest[mark - start] == text@[mark as int]);
        }
        lemma_mark_position_is(rest, mark - start);
        assert(mantissa(text@) =~= text@.subrange(start as int, mark as int));
    }
    let (digits, whole) = match numeral_digits(text, start, mark) {
        Some(pair) => pair,
        None => {
            return None;
        },
    };
    if mark < len {
        assert(exponent_text(text@) =~= text@.subrange(mark + 1, len as int));
        match exponent_parts(text, mark + 1) {
            Some((exponent, down)) => Some(Anatomy { digits, whole, exponent, down, minus }),
            None => None,
        }
    } else {
        proof {
            assert(!has_exponent(text@));
            assert(exponent_text(text@) =~= Seq::<char>::empty());
            assert(exponent_digits(text@) =~= Seq::<char>::empty());
            assert(exponent_size(text@) == 0);
        }
        Some(Anatomy { digits, whole, exponent: Some(0), down: false, minus })
    }
}

/// Tells whether the digits from `from` on, a point put before them, are
/// no more than a hundred: whether those before the point spell less than
/// a hundred, or a hundred with only zeros behind.
fn split_small(digits: &Vec<char>, at: usize) -> (b: bool)
    requires
        at <= digits.len(),
        all_digits(digits@),
    ensures
        b == (digits_value(digits@) <= 100 * pow10((digits.len() - at) as nat)),
{
    let ghost before = digits@.subrange(0, at as int);
    let ghost behind = digits@.subrange(at as int, digits.len() as int);
    proof {
        assert(digits@ =~= before + behind);
        assert forall|k: int| 0 <= k < before.len() implies is_digit(#[trigger] before[k]) by {
            assert(before[k] == digits@[k]);
        }
        assert forall|k: int| 0 <= k < behind.len() implies is_digit(#[trigger] behind[k]) by {
            assert(behind[k] == digits@[k + at]);
        }
        lemma_digits_value_joined(before, behind);
        lemma_digits_value_bound(behind);
        lemma_hundred_units(digits_value(before), digits_value(behind), pow10(behind.len()));
    }
    match digits_number(digits, 0, at) {
        None => false,
        Some(whole) => whole < 100 || (whole == 100 && match digits_number(
            digits,
            at,
            digits.len(),
        ) {
            Some(left) => left == 0,
            None => false,
        }),
    }
}

/// Tells whether a number, whatever its sign, has a size of no more than
/// a hundred. Its length does not matter.
fn reads_small(parts: &Anatomy, Ghost(s): Ghost<Seq<char>>) -> (b: bool)
    requires
        describes(*parts, s),
    ensures
        b == (number_units(s) <= 100 * number_scale(s)),
{
    let count = parts.digits.len();
    let ghost value = digits_value(parts.digits@);
    let ghost size = exponent_size(s);
    let ghost behind = (count - parts.whole) as nat;
    proof {
        lemma_parts_value(*parts, s);
        lemma_digits_value_bound(parts.digits@);
    }
    let behind_point: usize = count - parts.whole;
    if parts.down {
        match parts.exponent {
            Some(e) => if e <= parts.whole as u128 {
                let at: usize = parts.whole - e as usize;
                proof {
                    lemma_pow10_adds(behind, size);
                }
                return split_small(&parts.digits, at);
            },
            None => {},
        }
        proof {
            // the point moves to the left of every digit
            lemma_pow10_adds(behind, size);
            lemma_pow10_grows(count as nat, behind + size);
        }
        true
    } else {
        match parts.exponent {
            Some(e) => if e <= behind_point as u128 {
                let at: usize = parts.whole + e as usize;
                proof {
                    let left = (count - at) as nat;
                    lemma_pow10_adds(left, size);
                    lemma_pow10_grows(0, size);
                    lemma_cancel_factor(value, 100 * pow10(left), pow10(size));
                    assert(100 * pow10(left) * pow10(size) == 100 * (pow10(left) * pow10(size)))
                        by (nonlinear_arith);
                }
                return split_small(&parts.digits, at);
            },
            None => {},
        }
        // the point moves to the right of every digit
        let ghost more = (size - behind) as nat;
        proof {
            lemma_pow10_adds(behind, more);
            lemma_pow10_grows(0, behind);
            lemma_pow10_grows(1, more);
            lemma_cancel_factor(value * pow10(more), 100, pow10(behind));
            assert(value * (pow10(behind) * pow10(more)) == value * pow10(more) * pow10(behind))
                by (nonlinear_arith);
            assert(pow10(1) == 10) by {
                assert(pow10(0) == 1);
            }
        }
        let spelled = match digits_number(&parts.digits, 0, count) {
            Some(v) => v,
            None => {
                assert(parts.digits@.subrange(0, count as int) =~= parts.digits@);
                assert(value * pow10(more) > 100) by (nonlinear_arith)
                    requires
                        value > 100,
                        pow10(more) >= 1,
                ;
                return false;
            },
        };
        assert(parts.digits@.subrange(0, count as int) =~= parts.digits@);
        if spelled == 0 {
            assert(value * pow10(more) == 0) by (nonlinear_arith)
                requires
                    value == 0,
            ;
            return true;
        }
        let factor = match parts.exponent {
            Some(e) => power_of_ten(e - behind_point as u128),
            None => {
                proof {
                    lemma_pow10_exceeds(more);
                }
                None
            },
        };
        match factor {
            None => {
                assert(value * pow10(more) > 100) by (nonlinear_arith)
                    requires
                        value >= 1,
                        pow10(more) > 100,
                ;
                false
            },
            Some(f) => match product(spelled, f) {
                Some(v) => v <= 100,
                None => false,
            },
        }
    }
}

/// The units and the scale of a number, whatever its sign, where both fit
/// in 128 bits.
fn fraction_of(parts: &Anatomy, Ghost(s): Ghost<Seq<char>>) -> (r: Option<(u128, u128)>)
    requires
        describes(*parts, s),
    ensures
        r is Some <==> number_fits(s),
        r matches Some(pair) ==> pair.0 == number_units(s) && pair.1 == number_scale(s)
            && pair.1 >= 1,
{
    let count = parts.digits.len();
    let ghost value = digits_value(parts.digits@);
    let ghost p = pow10(exponent_size(s));
    let ghost q = pow10((count - parts.whole) as nat);
    proof {
        lemma_parts_value(*parts, s);
        assert(parts.digits@.subrange(0, count as int) =~= parts.digits@);
        assert(value * p >= value) by (nonlinear_arith)
            requires
                p >= 1,
        ;
        assert(q * p >= q && q * p >= p) by (nonlinear_arith)
            requires
                p >= 1,
                q >= 1,
        ;
    }
    let spelled = match digits_number(&parts.digits, 0, count) {
        Some(v) => v,
        None => {
            return None;
        },
    };
    let base = match power_of_ten((count - parts.whole) as u128) {
        Some(v) => v,
        None => {
            return None;
        },
    };
    let factor = match parts.exponent {
        Some(e) => power_of_ten(e),
        None => {
            proof {
                lemma_pow10_exceeds(exponent_size(s));
            }
            None
        },
    };
    if parts.down {
        match factor {
            Some(f) => match product(base, f) {
                Some(scale) => Some((spelled, scale)),
                None => None,
            },
            None => None,
        }
    } else if spelled == 0 {
        assert(value * p == 0) by (nonlinear_arith)
            requires
                value == 0,
        ;
        Some((0, base))
    } else {
        match factor {
            Some(f) => match product(spelled, f) {
                Some(units) => Some((units, base)),
                None => None,
            },
            None => {
                assert(value * p > u128::MAX) by (nonlinear_arith)
                    requires
                        value >= 1,
                        p > u128::MAX,
                ;
                None
            },
        }
    }
}

impl Percent {
    /// Reads a percentage, exactly and whatever its length: a decimal number
    /// from 0 to 100, with or without a sign or an exponent. `45.3` is
    /// `453/10`, `5e1` is `50/1`, `5e-1` is `5/10`. Anything that is no
    /// number gives `None`, and so does a number below 0 or above 100.
    pub fn from_numeral(text: &Vec<char>) -> (r: Option<Percent>)
        ensures
            r is Some <==> is_percentage(text@),
            r matches Some(p) ==> {
                &&& p.num() == number_units(text@)
                &&& p.den() == number_scale(text@)
                &&& p.is_fraction() == number_fits(text@)
                &&& !p.is_fraction() ==> p.written() == text@
            },
    {
        let parts = match take_apart(text) {
            Some(parts) => parts,
            None => {
                return None;
            },
        };
        proof {
            lemma_parts_value(parts, text@);
        }
        let zero = match digits_number(&parts.digits, 0, parts.digits.len()) {
            Some(v) => v == 0,
            None => false,
        };
        proof {
            let value = digits_value(parts.digits@);
            let p = pow10(exponent_size(text@));
            assert(parts.digits@.subrange(0, parts.digits@.len() as int) =~= parts.digits@);
            assert(value * p > 0 <==> value > 0) by (nonlinear_arith)
                requires
                    p >= 1,
                    value >= 0,
            ;
        }
        if parts.minus && !zero {
            return None;
        }
        if !reads_small(&parts, Ghost(text@)) {
            return None;
        }
        match fraction_of(&parts, Ghost(text@)) {
            Some(pair) => Some(
                Percent { kept: Kept::Fraction { numerator: pair.0, denominator: pair.1 } },
            ),
            None => {
                let copy = piece(text, 0, text.len());
                assert(copy@ =~= text@);
                Some(Percent { kept: Kept::Written(copy) })
            },
        }
    }
}

} // verus!
