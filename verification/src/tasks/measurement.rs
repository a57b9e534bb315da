//! Sensor readings as fixed-point decimals.
//!
//! A board reports its reading as a decimal numeral in ASCII. The controller
//! keeps a reading as a whole number of thousandths of the sensor's unit,
//! with a mark that says whether the numeral went on beyond that with digits
//! other than zero. This tells on which side of a limit the reading lies as
//! it was sent, for every limit that is a whole number of thousandths, and
//! is enough to print the reading rounded to two decimals.

use vstd::prelude::*;
use crate::text::{
    decimal_digits, first_index_of, lemma_decimal_digits_len, lemma_first_index_of, push_decimal,
};

verus! {

/// A reading in the sensor's native unit.
#[derive(Debug, Clone, Copy, PartialEq, Eq, Structural)]
pub struct Measurement {
    /// The greatest whole number of thousandths that is not above the
    /// reading.
    pub thousandths: i32,
    /// Whether the reading lies above `thousandths`, by less than one
    /// thousandth.
    pub excess: bool,
}

/// Whether `byte` is an ASCII decimal digit.
pub open spec fn is_digit(byte: u8) -> bool {
    0x30 <= byte <= 0x39
}

/// Whether every byte of `bytes` is a decimal digit.
pub open spec fn all_digits(bytes: Seq<u8>) -> bool {
    forall|i: int| 0 <= i < bytes.len() ==> is_digit(#[trigger] bytes[i])
}

/// Whether some byte of `digits` is a digit other than zero.
pub open spec fn any_nonzero(digits: Seq<u8>) -> bool {
    exists|i: int| 0 <= i < digits.len() && #[trigger] digits[i] != 0x30
}

/// The number that a run of decimal digits denotes; zero for the empty run.
pub open spec fn digits_value(digits: Seq<u8>) -> nat
    decreases digits.len(),
{
    if digits.len() == 0 {
        0
    } else {
        10 * digits_value(digits.drop_last()) + (digits.last() - 0x30) as nat
    }
}

/// The index of the first decimal point in `bytes`, or the length of `bytes`
/// if it holds none.
pub open spec fn first_point(bytes: Seq<u8>) -> int {
    first_index_of(bytes, 0x2E)
}

/// The length of the sign that `text` starts with: one for `+` or `-`.
pub open spec fn sign_len(text: Seq<u8>) -> int {
    if text.len() > 0 && (text[0] == 0x2B || text[0] == 0x2D) {
        1
    } else {
        0
    }
}

/// The digits between the sign and the decimal point.
pub open spec fn whole_part(text: Seq<u8>) -> Seq<u8> {
    let body = text.skip(sign_len(text));
    body.take(first_point(body))
}

/// The digits after the decimal point; empty where there is no point.
pub open spec fn fraction_part(text: Seq<u8>) -> Seq<u8> {
    let body = text.skip(sign_len(text));
    if first_point(body) < body.len() {
        body.skip(first_point(body) + 1)
    } else {
        Seq::empty()
    }
}

/// The fraction digits that count thousandths: the first three, or all of
/// them where there are fewer.
pub open spec fn kept_fraction(text: Seq<u8>) -> Seq<u8> {
    if fraction_part(text).len() > 3 {
        fraction_part(text).take(3)
    } else {
        fraction_part(text)
    }
}

/// The fraction digits after the third.
pub open spec fn dropped_fraction(text: Seq<u8>) -> Seq<u8> {
    if fraction_part(text).len() > 3 {
        fraction_part(text).skip(3)
    } else {
        Seq::empty()
    }
}

/// What one unit of a fraction of `len` digits is worth in thousandths.
pub open spec fn fraction_scale(len: nat) -> nat {
    if len == 0 {
        1000
    } else if len == 1 {
        100
    } else if len == 2 {
        10
    } else {
        1
    }
}

/// Whether `text` is a decimal numeral: an optional sign, digits, and
/// optionally a point followed by digits, with at least one digit in all.
pub open spec fn is_numeral(text: Seq<u8>) -> bool {
    &&& all_digits(whole_part(text))
    &&& all_digits(fraction_part(text))
    &&& whole_part(text).len() + fraction_part(text).len() >= 1
}

/// The whole thousandths in the magnitude of a numeral: its digits up to the
/// third after the point.
pub open spec fn numeral_magnitude(text: Seq<u8>) -> nat {
    1000 * digits_value(whole_part(text)) + fraction_scale(kept_fraction(text).len())
        * digits_value(kept_fraction(text))
}

/// Whether the magnitude of a numeral is more than its whole thousandths:
/// some digit after the third is not zero.
pub open spec fn numeral_excess(text: Seq<u8>) -> bool {
    any_nonzero(dropped_fraction(text))
}

/// The greatest whole number of thousandths that is not above a value with
/// this sign, these whole thousandths in its magnitude and this excess.
/// Below zero, a magnitude with an excess lies under its whole thousandths.
pub open spec fn floor_of(negative: bool, magnitude: nat, excess: bool) -> int {
    if negative {
        if excess {
            -magnitude - 1
        } else {
            -magnitude
        }
    } else {
        magnitude as int
    }
}

/// The greatest whole number of thousandths that is not above the value of
/// a numeral.
pub open spec fn numeral_floor(text: Seq<u8>) -> int {
    floor_of(text.len() > 0 && text[0] == 0x2D, numeral_magnitude(text), numeral_excess(text))
}

/// The reading that a payload denotes, where the payload is a numeral and
/// the whole thousandths under its value fit a [`Measurement`].
pub open spec fn parse_reading(text: Seq<u8>) -> Option<Measurement> {
    if is_numeral(text) && i32::MIN <= numeral_floor(text) <= i32::MAX {
        Some(Measurement { thousandths: numeral_floor(text) as i32, excess: numeral_excess(text) })
    } else {
        None
    }
}

impl Measurement {
    /// Whether the reading is greater than `limit` thousandths.
    pub open spec fn is_above(self, limit: int) -> bool {
        self.thousandths > limit || (self.thousandths == limit && self.excess)
    }

    /// Whether the reading is less than `limit` thousandths.
    pub open spec fn is_below(self, limit: int) -> bool {
        self.thousandths < limit
    }

    /// The whole thousandths in the magnitude of the reading.
    pub open spec fn magnitude(self) -> nat {
        if self.thousandths >= 0 {
            self.thousandths as nat
        } else if self.excess {
            (-self.thousandths - 1) as nat
        } else {
            (-self.thousandths) as nat
        }
    }
}

/// The magnitude of a reading in hundredths, rounded to the nearest
/// hundredth and, exactly halfway between two, to the even one.
pub open spec fn rounded_hundredths(reading: Measurement) -> nat {
    let quotient = reading.magnitude() / 10;
    let rest = reading.magnitude() % 10;
    if rest > 5 || (rest == 5 && (reading.excess || quotient % 2 == 1)) {
        quotient + 1
    } else {
        quotient
    }
}

/// A reading printed with two decimals: a minus sign for a reading below
/// zero, the whole part without leading zeros, a point and two digits.
pub open spec fn two_decimals(reading: Measurement) -> Seq<u8> {
    let hundredths = rounded_hundredths(reading);
    let sign = if reading.thousandths < 0 {
        seq![0x2Du8]
    } else {
        Seq::<u8>::empty()
    };
    sign + decimal_digits(hundredths / 100) + seq![
        0x2Eu8,
        (0x30 + (hundredths % 100) / 10) as u8,
        (0x30 + hundredths % 10) as u8,
    ]
}

/// Ten to the power of `exponent`.
pub open spec fn pow10(exponent: nat) -> nat
    decreases exponent,
{
    if exponent == 0 {
        1
    } else {
        10 * pow10((exponent - 1) as nat)
    }
}

/// The number that the digits of a numeral denote once its point is left
/// out, with the sign of the numeral. The value of the numeral is this
/// number divided by ten to the power of the length of its fraction part.
pub open spec fn numeral_digits(text: Seq<u8>) -> int {
    let digits = digits_value(whole_part(text) + fraction_part(text));
    if text.len() > 0 && text[0] == 0x2D {
        -digits
    } else {
        digits as int
    }
}

/// A power of ten is positive.
proof fn lemma_pow10_positive(exponent: nat)
    ensures
        pow10(exponent) > 0,
    decreases exponent,
{
    if exponent > 0 {
        lemma_pow10_positive((exponent - 1) as nat);
    }
}

/// Scaling by a number that is not negative keeps the order.
proof fn lemma_scale_keeps_order(lower: int, upper: int, scale: int)
    requires
        lower <= upper,
        scale >= 0,
    ensures
        lower * scale <= upper * scale,
{
    assert(lower * scale <= upper * scale) by (nonlinear_arith)
        requires
            lower <= upper,
            scale >= 0,
    ;
}

/// A run of digits without its last byte is a run of digits, and the last
/// byte is a digit.
proof fn lemma_all_digits_drop_last(digits: Seq<u8>)
    requires
        all_digits(digits),
        digits.len() > 0,
    ensures
        all_digits(digits.drop_last()),
        is_digit(digits.last()),
{
    let shorter = digits.drop_last();
    assert forall|i: int| 0 <= i < shorter.len() implies is_digit(#[trigger] shorter[i]) by {
        assert(shorter[i] == digits[i]);
    }
    assert(is_digit(digits[digits.len() - 1]));
}

/// Digits set behind other digits shift them by one power of ten each.
proof fn lemma_digits_value_concat(front: Seq<u8>, back: Seq<u8>)
    ensures
        digits_value(front + back) == digits_value(front) * pow10(back.len()) + digits_value(
            back,
        ),
    decreases back.len(),
{
    let x = digits_value(front) as int;
    if back.len() == 0 {
        assert(front + back =~= front);
        assert(pow10(0) == 1);
        assert(x * 1 == x) by (nonlinear_arith);
    } else {
        let shorter = back.drop_last();
        let full = front + back;
        lemma_digits_value_concat(front, shorter);
        assert(full.drop_last() =~= front + shorter);
        assert(full.last() == back.last());
        let p = pow10(shorter.len()) as int;
        let y = digits_value(shorter) as int;
        let last = (back.last() - 0x30) as nat;
        assert(pow10(back.len()) == 10 * p);
        assert(digits_value(full) == 10 * (x * p + y) + last);
        assert(digits_value(back) == 10 * y + last);
        assert(10 * (x * p + y) == x * (10 * p) + 10 * y) by (nonlinear_arith);
    }
}

/// A run of digits denotes less than ten to the power of its length.
proof fn lemma_digits_value_bound(digits: Seq<u8>)
    requires
        all_digits(digits),
    ensures
        digits_value(digits) < pow10(digits.len()),
    decreases digits.len(),
{
    if digits.len() > 0 {
        lemma_all_digits_drop_last(digits);
        lemma_digits_value_bound(digits.drop_last());
    }
}

/// A run of digits denotes zero exactly where all of them are zero.
proof fn lemma_digits_value_zero(digits: Seq<u8>)
    requires
        all_digits(digits),
    ensures
        digits_value(digits) > 0 <==> any_nonzero(digits),
    decreases digits.len(),
{
    if digits.len() > 0 {
        let shorter = digits.drop_last();
        lemma_all_digits_drop_last(digits);
        lemma_digits_value_zero(shorter);
        if any_nonzero(shorter) {
            let i = choose|i: int| 0 <= i < shorter.len() && #[trigger] shorter[i] != 0x30;
            assert(digits[i] == shorter[i]);
        }
        if digits.last() != 0x30 {
            assert(digits[digits.len() - 1] != 0x30);
        }
        if any_nonzero(digits) {
            let i = choose|i: int| 0 <= i < digits.len() && #[trigger] digits[i] != 0x30;
            if i < shorter.len() {
                assert(shorter[i] == digits[i]);
            }
        }
    }
}

/// A reading lies where the numeral it was read from lies. With the value of
/// the numeral written as `numeral_digits` over `pow10` of the length of its
/// fraction part, the reading holds the greatest whole number of thousandths
/// that is not above the value, has an excess exactly where the value is no
/// whole number of thousandths, and is above or below a limit in
/// thousandths exactly where the value is.
pub proof fn reading_compares_as_sent(text: Seq<u8>, limit: int)
    requires
        parse_reading(text) is Some,
    ensures
        ({
            let reading = parse_reading(text).unwrap();
            let scale = pow10(fraction_part(text).len());
            let sent = 1000 * numeral_digits(text);
            &&& reading.thousandths * scale <= sent < (reading.thousandths + 1) * scale
            &&& reading.excess <==> reading.thousandths * scale != sent
            &&& reading.is_above(limit) <==> sent > limit * scale
            &&& reading.is_below(limit) <==> sent < limit * scale
        }),
{
    let reading = parse_reading(text).unwrap();
    let whole = whole_part(text);
    let fraction = fraction_part(text);
    let f = fraction.len();
    let s = pow10(f) as int;
    let w = digits_value(whole) as int;
    let a = digits_value(whole + fraction) as int;
    let m = numeral_magnitude(text) as int;
    let t = reading.thousandths as int;
    let negative = text.len() > 0 && text[0] == 0x2D;
    let sent = 1000 * numeral_digits(text);
    lemma_pow10_positive(f);
    lemma_digits_value_concat(whole, fraction);
    // The value sent, in thousandths scaled by `s`, is the whole thousandths
    // of the magnitude and a rest that is less than one thousandth.
    let rest: int;
    if f <= 3 {
        let k = fraction_scale(f) as int;
        let v = digits_value(fraction) as int;
        assert(dropped_fraction(text) =~= Seq::<u8>::empty());
        assert(k * s == 1000) by {
            reveal_with_fuel(pow10, 4);
            if f == 0 {
                assert(k == 1000 && s == 1);
            } else if f == 1 {
                assert(k == 100 && s == 10);
            } else if f == 2 {
                assert(k == 10 && s == 100);
            } else {
                assert(k == 1 && s == 1000);
            }
        }
        assert(1000 * a == m * s) by (nonlinear_arith)
            requires
                m == 1000 * w + k * v,
                a == w * s + v,
                k * s == 1000,
        ;
        rest = 0;
    } else {
        let kept = fraction.take(3);
        let dropped = fraction.skip(3);
        assert(fraction =~= kept + dropped);
        lemma_digits_value_concat(kept, dropped);
        assert forall|i: int| 0 <= i < dropped.len() implies is_digit(#[trigger] dropped[i]) by {
            assert(dropped[i] == fraction[i + 3]);
        }
        lemma_digits_value_bound(dropped);
        lemma_digits_value_zero(dropped);
        let p = pow10(dropped.len()) as int;
        let d = digits_value(dropped) as int;
        let v = digits_value(kept) as int;
        assert(s == 1000 * p) by {
            reveal_with_fuel(pow10, 4);
        }
        assert(1000 * a == m * s + 1000 * d) by (nonlinear_arith)
            requires
                m == 1000 * w + v,
                a == w * s + (v * p + d),
                s == 1000 * p,
        ;
        rest = 1000 * d;
    }
    assert(1000 * a == m * s + rest);
    assert(0 <= rest < s);
    assert(reading.excess <==> rest > 0);
    assert((t + 1) * s == t * s + s) by (nonlinear_arith);
    if negative {
        if reading.excess {
            assert(t == -m - 1);
            assert(t * s == -(m * s) - s) by (nonlinear_arith)
                requires
                    t == -m - 1,
            ;
        } else {
            assert(t == -m);
            assert(t * s == -(m * s)) by (nonlinear_arith)
                requires
                    t == -m,
            ;
        }
        assert(sent == -(1000 * a));
    } else {
        assert(t == m);
        assert(sent == 1000 * a);
    }
    assert(t * s <= sent < (t + 1) * s);
    assert(reading.excess <==> t * s != sent);
    if t > limit {
        lemma_scale_keeps_order(limit + 1, t, s);
        assert((limit + 1) * s == limit * s + s) by (nonlinear_arith);
    }
    if t < limit {
        lemma_scale_keeps_order(t + 1, limit, s);
    }
}

/// A reading printed with two decimals takes between four and eleven bytes.
pub proof fn lemma_two_decimals_len(reading: Measurement)
    ensures
        4 <= two_decimals(reading).len() <= 11,
{
    let hundredths = rounded_hundredths(reading);
    assert(hundredths / 100 < 10_000_000);
    lemma_decimal_digits_len(hundredths / 100);
}

/// The largest magnitude, in thousandths, that a reading can have.
const MAGNITUDE_LIMIT: u64 = 2_147_483_648;

/// Reads the run of digits that starts at `from`. Returns where the run ends
/// and its value, which is exact up to [`MAGNITUDE_LIMIT`] and above it only
/// says that the run denotes more.
fn scan_digits(text: &[u8], from: usize) -> (res: (usize, u64))
    requires
        from <= text@.len(),
    ensures
        from <= res.0 <= text@.len(),
        all_digits(text@.subrange(from as int, res.0 as int)),
        res.0 < text@.len() ==> !is_digit(text@[res.0 as int]),
        res.1 <= MAGNITUDE_LIMIT ==> res.1 == digits_value(
            text@.subrange(from as int, res.0 as int),
        ),
        res.1 > MAGNITUDE_LIMIT ==> digits_value(text@.subrange(from as int, res.0 as int))
            > MAGNITUDE_LIMIT,
        res.1 <= 10 * MAGNITUDE_LIMIT + 9,
{
    let mut end: usize = from;
    let mut value: u64 = 0;
    while end < text.len() && 0x30 <= text[end] && text[end] <= 0x39
        invariant
            from <= end <= text@.len(),
            all_digits(text@.subrange(from as int, end as int)),
            value <= MAGNITUDE_LIMIT ==> value == digits_value(
                text@.subrange(from as int, end as int),
            ),
            value > MAGNITUDE_LIMIT ==> digits_value(text@.subrange(from as int, end as int))
                > MAGNITUDE_LIMIT,
            value <= 10 * MAGNITUDE_LIMIT + 9,
        decreases text@.len() - end,
    {
        let digit: u64 = (text[end] - 0x30) as u64;
        proof {
            let before = text@.subrange(from as int, end as int);
            let after = text@.subrange(from as int, end as int + 1);
            assert(after.drop_last() =~= before);
            assert(digits_value(after) == 10 * digits_value(before) + digit);
            assert forall|i: int| 0 <= i < after.len() implies is_digit(#[trigger] after[i]) by {
                if i < before.len() {
                    assert(after[i] == before[i]);
                }
            }
        }
        if value <= MAGNITUDE_LIMIT {
            value = 10 * value + digit;
        }
        end = end + 1;
    }
    (end, value)
}

/// Reads the run of fraction digits that starts at `from`. Returns where the
/// run ends, the value and the number of its first three digits, and whether
/// a digit after them is not zero.
fn scan_fraction(text: &[u8], from: usize) -> (res: (usize, u64, usize, bool))
    requires
        from <= text@.len(),
    ensures
        from <= res.0 <= text@.len(),
        all_digits(text@.subrange(from as int, res.0 as int)),
        res.0 < text@.len() ==> !is_digit(text@[res.0 as int]),
        res.2 == (if res.0 - from > 3 {
            3
        } else {
            res.0 - from
        }),
        res.1 == digits_value(text@.subrange(from as int, from + res.2)),
        res.1 <= 999,
        res.3 == any_nonzero(text@.subrange(from + res.2, res.0 as int)),
{
    let mut end: usize = from;
    let mut kept: u64 = 0;
    let mut kept_len: usize = 0;
    let mut excess: bool = false;
    while end < text.len() && 0x30 <= text[end] && text[end] <= 0x39
        invariant
            from <= end <= text@.len(),
            all_digits(text@.subrange(from as int, end as int)),
            kept_len == (if end - from > 3 {
                3
            } else {
                end - from
            }),
            kept == digits_value(text@.subrange(from as int, from + kept_len)),
            kept_len == 0 ==> kept == 0,
            kept_len == 1 ==> kept <= 9,
            kept_len == 2 ==> kept <= 99,
            kept <= 999,
            excess ==> any_nonzero(text@.subrange(from + kept_len, end as int)),
            !excess ==> forall|j: int| from + kept_len <= j < end ==> text@[j] == 0x30,
        decreases text@.len() - end,
    {
        let byte: u8 = text[end];
        proof {
            let before = text@.subrange(from as int, end as int);
            let after = text@.subrange(from as int, end as int + 1);
            assert forall|i: int| 0 <= i < after.len() implies is_digit(#[trigger] after[i]) by {
                if i < before.len() {
                    assert(after[i] == before[i]);
                }
            }
        }
        if kept_len < 3 {
            proof {
                let before = text@.subrange(from as int, end as int);
                let after = text@.subrange(from as int, end as int + 1);
                assert(after.drop_last() =~= before);
                assert(digits_value(after) == 10 * digits_value(before) + (byte - 0x30));
            }
            kept = 10 * kept + (byte - 0x30) as u64;
            kept_len = kept_len + 1;
        } else {
            proof {
                let before = text@.subrange(from + 3, end as int);
                let after = text@.subrange(from + 3, end as int + 1);
                if excess {
                    let i = choose|i: int| 0 <= i < before.len() && #[trigger] before[i] != 0x30;
                    assert(after[i] == before[i]);
                }
                if byte != 0x30 {
                    assert(after[end - from - 3] == byte);
                }
            }
            if byte != 0x30 {
                excess = true;
            }
        }
        end = end + 1;
    }
    proof {
        let rest = text@.subrange(from + kept_len, end as int);
        if !excess {
            assert forall|i: int| 0 <= i < rest.len() implies #[trigger] rest[i] == 0x30 by {
                assert(rest[i] == text@[from + kept_len + i]);
            }
        }
    }
    (end, kept, kept_len, excess)
}

/// Puts a reading together from the parts of its numeral: the sign, the
/// value of the whole part as [`scan_digits`] gives it, the first fraction
/// digits and the excess. There is no reading where the whole thousandths
/// under the value do not fit.
fn compose(
    negative: bool,
    whole: u64,
    Ghost(whole_value): Ghost<nat>,
    kept: u64,
    kept_len: usize,
    excess: bool,
) -> (res: Option<Measurement>)
    requires
        whole <= MAGNITUDE_LIMIT ==> whole == whole_value,
        whole > MAGNITUDE_LIMIT ==> whole_value > MAGNITUDE_LIMIT,
        kept <= 999,
        kept_len <= 3,
    ensures
        ({
            let floor = floor_of(
                negative,
                1000 * whole_value + fraction_scale(kept_len as nat) * (kept as nat),
                excess,
            );
            res == if i32::MIN <= floor <= i32::MAX {
                Some(Measurement { thousandths: floor as i32, excess })
            } else {
                None
            }
        }),
{
    let scale: u64 = if kept_len == 0 {
        1000
    } else if kept_len == 1 {
        100
    } else if kept_len == 2 {
        10
    } else {
        1
    };
    assert(0 <= scale * kept <= 1000 * kept) by (nonlinear_arith)
        requires
            0 <= scale <= 1000,
            0 <= kept,
    ;
    if whole > MAGNITUDE_LIMIT {
        return None;
    }
    let magnitude: u64 = 1000 * whole + scale * kept;
    if negative {
        let under: u64 = if excess {
            magnitude + 1
        } else {
            magnitude
        };
        if under > MAGNITUDE_LIMIT {
            None
        } else {
            let value: i64 = -(under as i64);
            Some(Measurement { thousandths: value as i32, excess })
        }
    } else {
        if magnitude >= MAGNITUDE_LIMIT {
            None
        } else {
            Some(Measurement { thousandths: magnitude as i32, excess })
        }
    }
}

/// Where the digits after the sign run up to a decimal point or to the end
/// of the text, they are the whole part, and what follows the point is the
/// fraction part.
proof fn lemma_parts(text: Seq<u8>, start: int, point: int)
    requires
        start == sign_len(text),
        start <= point <= text.len(),
        all_digits(text.subrange(start, point)),
        point < text.len() ==> text[point] == 0x2E,
    ensures
        whole_part(text) == text.subrange(start, point),
        point < text.len() ==> fraction_part(text) == text.subrange(point + 1, text.len() as int),
        point == text.len() ==> fraction_part(text) == Seq::<u8>::empty(),
{
    let body = text.skip(start);
    lemma_first_index_of(body, 0x2E);
    let found = first_point(body);
    if found < point - start {
        assert(body[found] == text.subrange(start, point)[found]);
    }
    if found > point - start {
        assert(body[point - start] == text[point]);
    }
    assert(whole_part(text) =~= text.subrange(start, point));
    if point < text.len() {
        assert(fraction_part(text) =~= text.subrange(point + 1, text.len() as int));
    }
}

/// A byte after the sign and digits that is neither a digit nor a decimal
/// point spoils the numeral.
proof fn lemma_stray_byte(text: Seq<u8>, start: int, at: int)
    requires
        start == sign_len(text),
        start <= at < text.len(),
        all_digits(text.subrange(start, at)),
        !is_digit(text[at]),
        text[at] != 0x2E,
    ensures
        !is_numeral(text),
{
    let body = text.skip(start);
    lemma_first_index_of(body, 0x2E);
    let found = first_point(body);
    if found < at - start {
        assert(body[found] == text.subrange(start, at)[found]);
    }
    assert(body[at - start] == text[at]);
    assert(found > at - start);
    assert(whole_part(text)[at - start] == text[at]);
}

/// The first three digits of a fraction count thousandths, and the rest is
/// dropped.
proof fn lemma_fraction_split(text: Seq<u8>, from: int, kept_len: int)
    requires
        0 <= from <= text.len(),
        fraction_part(text) == text.subrange(from, text.len() as int),
        kept_len == (if text.len() - from > 3 {
            3
        } else {
            text.len() - from
        }),
    ensures
        kept_fraction(text) == text.subrange(from, from + kept_len),
        dropped_fraction(text) == text.subrange(from + kept_len, text.len() as int),
{
    assert(kept_fraction(text) =~= text.subrange(from, from + kept_len));
    assert(dropped_fraction(text) =~= text.subrange(from + kept_len, text.len() as int));
}

impl Measurement {
    /// Reads a payload as a decimal numeral.
    pub fn parse(text: &[u8]) -> (res: Option<Measurement>)
        ensures
            res == parse_reading(text@),
    {
        let len: usize = text.len();
        let start: usize = if len > 0 && (text[0] == 0x2B || text[0] == 0x2D) {
            1
        } else {
            0
        };
        let negative: bool = len > 0 && text[0] == 0x2D;
        let (point, whole) = scan_digits(text, start);
        if point < len && text[point] != 0x2E {
            proof {
                lemma_stray_byte(text@, start as int, point as int);
            }
            return None;
        }
        proof {
            lemma_parts(text@, start as int, point as int);
        }
        let mut kept: u64 = 0;
        let mut kept_len: usize = 0;
        let mut excess: bool = false;
        if point < len {
            let (end, value, value_len, more) = scan_fraction(text, point + 1);
            if end < len {
                proof {
                    assert(fraction_part(text@)[end - point - 1] == text@[end as int]);
                }
                return None;
            }
            proof {
                lemma_fraction_split(text@, point + 1, value_len as int);
            }
            kept = value;
            kept_len = value_len;
            excess = more;
            if point - start + (end - (point + 1)) == 0 {
                return None;
            }
        } else {
            proof {
                assert(kept_fraction(text@) =~= Seq::<u8>::empty());
                assert(dropped_fraction(text@) =~= Seq::<u8>::empty());
            }
            if point - start == 0 {
                return None;
            }
        }
        compose(negative, whole, Ghost(digits_value(whole_part(text@))), kept, kept_len, excess)
    }

    /// Whether the reading is greater than `limit` thousandths.
    pub fn exceeds(&self, limit: i32) -> (res: bool)
        ensures
            res == self.is_above(limit as int),
    {
        self.thousandths > limit || (self.thousandths == limit && self.excess)
    }

    /// Whether the reading is less than `limit` thousandths.
    pub fn falls_below(&self, limit: i32) -> (res: bool)
        ensures
            res == self.is_below(limit as int),
    {
        self.thousandths < limit
    }

    /// Appends the reading, printed with two decimals, to `out`.
    pub fn push_two_decimals(&self, out: &mut Vec<u8>)
        ensures
            final(out)@ == old(out)@ + two_decimals(*self),
    {
        let value: i64 = self.thousandths as i64;
        let magnitude: i64 = if value >= 0 {
            value
        } else if self.excess {
            -value - 1
        } else {
            -value
        };
        let quotient: i64 = magnitude / 10;
        let rest: i64 = magnitude % 10;
        let hundredths: i64 = if rest > 5 || (rest == 5 && (self.excess || quotient % 2 == 1)) {
            quotient + 1
        } else {
            quotient
        };
        assert(hundredths == rounded_hundredths(*self));
        if value < 0 {
            out.push(0x2D);
        }
        push_decimal(out, (hundredths / 100) as u32);
        out.push(0x2E);
        let tens: u8 = ((hundredths % 100) / 10) as u8;
        let units: u8 = (hundredths % 10) as u8;
        out.push(0x30 + tens);
        out.push(0x30 + units);
        proof {
            assert(out@ =~= old(out)@ + two_decimals(*self));
        }
    }
}

} // verus!
