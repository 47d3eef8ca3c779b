//! Exact decimal numbers, read from text and written back to it.
//!
//! Prices and amounts are kept as the digits that were read, so that nothing
//! is rounded: a number is a sign, the digits before the point and the digits
//! after it.

use vstd::prelude::*;
use crate::count::{all_digits, digit_value, digits_value, lemma_digits_value_grows};
use crate::text::{
    char_is_digit, chars_of, is_digit, lemma_skip_digits_bounds, scan_digits, skip_digits,
    slice_of, text_of,
};

verus! {

/// The mathematical view of a [`Decimal`]: its sign and its digits.
pub struct DecimalView {
    pub negative: bool,
    /// The digits before the point, most significant first; empty for zero.
    pub whole: Seq<char>,
    /// The digits after the point; empty where there are none.
    pub fraction: Seq<char>,
}

impl DecimalView {
    /// Zero has no digits at all.
    pub open spec fn is_zero(self) -> bool {
        self.whole.len() == 0 && self.fraction.len() == 0
    }

    /// Greater than zero.
    pub open spec fn is_positive(self) -> bool {
        !self.negative && !self.is_zero()
    }

    /// The canonical form: digits only, no zero in front, no zero at the end
    /// of the fraction, and no negative zero.
    pub open spec fn wf(self) -> bool {
        &&& forall|i: int| 0 <= i < self.whole.len() ==> is_digit(#[trigger] self.whole[i])
        &&& forall|i: int| 0 <= i < self.fraction.len() ==> is_digit(#[trigger] self.fraction[i])
        &&& (self.whole.len() > 0 ==> self.whole[0] != '0')
        &&& (self.fraction.len() > 0 ==> self.fraction[self.fraction.len() - 1] != '0')
        &&& (self.negative ==> !self.is_zero())
    }

    /// The number written out with `point` between whole part and fraction:
    /// `-` for a negative number, `0` for an empty whole part, and the point
    /// only where a fraction follows.
    pub open spec fn text_with(self, point: char) -> Seq<char> {
        (if self.negative {
            seq!['-']
        } else {
            Seq::empty()
        }) + (if self.whole.len() == 0 {
            seq!['0']
        } else {
            self.whole
        }) + (if self.fraction.len() == 0 {
            Seq::empty()
        } else {
            seq![point] + self.fraction
        })
    }

    /// The number written out with a decimal point.
    pub open spec fn text(self) -> Seq<char> {
        self.text_with('.')
    }

    /// The number's magnitude as a count of its last decimal place: the
    /// number that all its digits write together.
    pub open spec fn mantissa(self) -> nat {
        digits_value(self.whole + self.fraction)
    }

    /// The number of decimal places. The number's magnitude is its
    /// mantissa divided by ten to the power of its scale.
    pub open spec fn scale(self) -> nat {
        self.fraction.len()
    }
}

/// The number zero.
pub open spec fn zero_view() -> DecimalView {
    DecimalView { negative: false, whole: Seq::empty(), fraction: Seq::empty() }
}

/// The number one.
pub open spec fn one_view() -> DecimalView {
    DecimalView { negative: false, whole: seq!['1'], fraction: Seq::empty() }
}

/// The first index at or after `i` that holds no `0`.
pub open spec fn skip_zeros(s: Seq<char>, i: int) -> int
    decreases s.len() - i,
{
    if 0 <= i < s.len() && s[i] == '0' {
        skip_zeros(s, i + 1)
    } else {
        i
    }
}

/// The end of the text before `j` once the zeros directly before `j` are
/// taken away.
pub open spec fn skip_zeros_back(s: Seq<char>, j: int) -> int
    decreases j,
{
    if 0 < j <= s.len() && s[j - 1] == '0' {
        skip_zeros_back(s, j - 1)
    } else {
        j
    }
}

/// `t` with every `,` replaced by `.`.
pub open spec fn with_points(t: Seq<char>) -> Seq<char> {
    Seq::new(t.len(), |i: int| if t[i] == ',' { '.' } else { t[i] })
}

/// `t` without its blanks (the character U+0020).
pub open spec fn without_blanks(t: Seq<char>) -> Seq<char>
    decreases t.len(),
{
    if t.len() == 0 {
        Seq::empty()
    } else if t.last() == ' ' {
        without_blanks(t.drop_last())
    } else {
        without_blanks(t.drop_last()).push(t.last())
    }
}

/// The number that `t` writes without an exponent, if it writes one: an
/// optional sign, digits, and optionally a point and more digits, with at
/// least one digit in all and nothing else.
pub open spec fn plain_decimal_of(t: Seq<char>) -> Option<DecimalView> {
    let signed = t.len() > 0 && (t[0] == '+' || t[0] == '-');
    let i = if signed { 1int } else { 0int };
    let a = skip_digits(t, i);
    let pointed = a < t.len() && t[a] == '.';
    let b = if pointed { skip_digits(t, a + 1) } else { a };
    let n_digits = (a - i) + (if pointed { b - (a + 1) } else { 0 });
    if b != t.len() || n_digits == 0 {
        None
    } else {
        let whole = t.subrange(skip_zeros(t.subrange(i, a), 0) + i, a);
        let fraction = if pointed {
            t.subrange(a + 1, skip_zeros_back(t.subrange(a + 1, b), b - (a + 1)) + a + 1)
        } else {
            Seq::empty()
        };
        let zero = whole.len() == 0 && fraction.len() == 0;
        Some(DecimalView { negative: signed && t[0] == '-' && !zero, whole, fraction })
    }
}

/// The largest exponent, to either side, with which a number is read.
pub const EXPONENT_LIMIT: usize = 400;

/// Whether `c` introduces an exponent.
pub open spec fn is_exponent_mark(c: char) -> bool {
    c == 'e' || c == 'E'
}

/// The first index at or after `i` that holds an exponent mark; the length
/// of `t` if there is none.
pub open spec fn find_exponent(t: Seq<char>, i: int) -> int
    decreases t.len() - i,
{
    if 0 <= i < t.len() && !is_exponent_mark(t[i]) {
        find_exponent(t, i + 1)
    } else {
        i
    }
}

/// The exponent that `x` writes, if it writes one: an optional sign and
/// then one digit or more and nothing else, where the number is not above
/// the limit.
pub open spec fn exponent_of(x: Seq<char>) -> Option<int> {
    let signed = x.len() > 0 && (x[0] == '+' || x[0] == '-');
    let digits = if signed {
        x.subrange(1, x.len() as int)
    } else {
        x
    };
    if digits.len() > 0 && all_digits(digits) && digits_value(digits) <= EXPONENT_LIMIT {
        Some(
            if signed && x[0] == '-' {
                -(digits_value(digits) as int)
            } else {
                digits_value(digits) as int
            },
        )
    } else {
        None
    }
}

/// `n` zeros.
pub open spec fn zeros(n: int) -> Seq<char> {
    Seq::new(
        if n >= 0 {
            n as nat
        } else {
            0
        },
        |i: int| '0',
    )
}

/// `s` without the zeros at its start.
pub open spec fn without_leading_zeros(s: Seq<char>) -> Seq<char> {
    let k = skip_zeros(s, 0);
    if 0 <= k <= s.len() {
        s.subrange(k, s.len() as int)
    } else {
        s
    }
}

/// `s` without the zeros at its end.
pub open spec fn without_trailing_zeros(s: Seq<char>) -> Seq<char> {
    let k = skip_zeros_back(s, s.len() as int);
    if 0 <= k <= s.len() {
        s.subrange(0, k)
    } else {
        s
    }
}

/// The number `d` times ten to the power of `x`, in canonical form: the
/// digits stay and the point moves `x` places to the right, or to the left
/// where `x` is below zero.
pub open spec fn shifted(d: DecimalView, x: int) -> DecimalView {
    let digits = d.whole + d.fraction;
    let point = d.whole.len() + x;
    let whole = without_leading_zeros(
        if point <= 0 {
            Seq::empty()
        } else if point >= digits.len() {
            digits + zeros(point - digits.len())
        } else {
            digits.subrange(0, point)
        },
    );
    let fraction = without_trailing_zeros(
        if point <= 0 {
            zeros(-point) + digits
        } else if point >= digits.len() {
            Seq::empty()
        } else {
            digits.subrange(point, digits.len() as int)
        },
    );
    DecimalView {
        negative: d.negative && !(whole.len() == 0 && fraction.len() == 0),
        whole,
        fraction,
    }
}

/// The number that `t` writes, if it writes one: a number without an
/// exponent, or such a number, then `e` or `E`, then an exponent; the number
/// is then the first times ten to the power of the exponent.
pub open spec fn decimal_of(t: Seq<char>) -> Option<DecimalView> {
    let e = find_exponent(t, 0);
    if !(0 <= e < t.len()) {
        plain_decimal_of(t)
    } else {
        match (plain_decimal_of(t.subrange(0, e)), exponent_of(t.subrange(e + 1, t.len() as int))) {
            (Some(d), Some(x)) => Some(shifted(d, x)),
            _ => None,
        }
    }
}

/// The number that a numeric field writes: blanks inside it are dropped and
/// `,` is read as the decimal point.
pub open spec fn number_of(t: Seq<char>) -> Option<DecimalView> {
    decimal_of(with_points(without_blanks(t)))
}

/// What `skip_digits` passes over are digits.
pub proof fn lemma_skip_digits_are_digits(s: Seq<char>, i: int)
    requires
        0 <= i <= s.len(),
    ensures
        forall|k: int| i <= k < skip_digits(s, i) ==> is_digit(#[trigger] s[k]),
    decreases s.len() - i,
{
    if i < s.len() && is_digit(s[i]) {
        lemma_skip_digits_are_digits(s, i + 1);
    }
}

/// `skip_zeros` stays within the text and stops before what is no `0`.
pub proof fn lemma_skip_zeros_bounds(s: Seq<char>, i: int)
    requires
        0 <= i <= s.len(),
    ensures
        i <= skip_zeros(s, i) <= s.len(),
        skip_zeros(s, i) < s.len() ==> s[skip_zeros(s, i)] != '0',
    decreases s.len() - i,
{
    if i < s.len() && s[i] == '0' {
        lemma_skip_zeros_bounds(s, i + 1);
    }
}

/// `skip_zeros_back` stays within the text and stops after what is no `0`.
pub proof fn lemma_skip_zeros_back_bounds(s: Seq<char>, j: int)
    requires
        0 <= j <= s.len(),
    ensures
        0 <= skip_zeros_back(s, j) <= j,
        skip_zeros_back(s, j) > 0 ==> s[skip_zeros_back(s, j) - 1] != '0',
    decreases j,
{
    if 0 < j && s[j - 1] == '0' {
        lemma_skip_zeros_back_bounds(s, j - 1);
    }
}

/// Digits of which one is not `0` write a number above zero.
pub proof fn lemma_digits_value_positive(s: Seq<char>, i: int)
    requires
        0 <= i < s.len(),
        is_digit(s[i]),
        s[i] != '0',
    ensures
        digits_value(s) > 0,
    decreases s.len(),
{
    if i < s.len() - 1 {
        lemma_digits_value_positive(s.drop_last(), i);
    }
}

/// A number in canonical form is zero exactly where its mantissa is zero,
/// and greater than zero exactly where it is not negative and its mantissa
/// is above zero.
pub proof fn lemma_positive_mantissa(x: DecimalView)
    requires
        x.wf(),
    ensures
        x.is_zero() <==> x.mantissa() == 0,
        x.is_positive() <==> !x.negative && x.mantissa() > 0,
{
    let digits = x.whole + x.fraction;
    if x.whole.len() > 0 {
        assert(digits[0] == x.whole[0]);
        assert(is_digit(x.whole[0]));
        lemma_digits_value_positive(digits, 0);
    } else if x.fraction.len() > 0 {
        let last = digits.len() - 1;
        assert(digits[last] == x.fraction[x.fraction.len() - 1]);
        assert(is_digit(x.fraction[x.fraction.len() - 1]));
        lemma_digits_value_positive(digits, last);
    } else {
        assert(digits =~= Seq::<char>::empty());
    }
}

/// `find_exponent` stays within the text, and passes over no exponent
/// mark.
pub proof fn lemma_find_exponent(t: Seq<char>, i: int)
    requires
        0 <= i <= t.len(),
    ensures
        i <= find_exponent(t, i) <= t.len(),
        forall|k: int| i <= k < find_exponent(t, i) ==> !is_exponent_mark(#[trigger] t[k]),
        find_exponent(t, i) < t.len() ==> is_exponent_mark(t[find_exponent(t, i)]),
    decreases t.len() - i,
{
    if i < t.len() && !is_exponent_mark(t[i]) {
        lemma_find_exponent(t, i + 1);
    }
}

/// A text without an exponent mark is read as a number without an
/// exponent.
pub proof fn lemma_no_exponent(t: Seq<char>)
    requires
        forall|k: int| 0 <= k < t.len() ==> !is_exponent_mark(#[trigger] t[k]),
    ensures
        decimal_of(t) == plain_decimal_of(t),
{
    lemma_find_exponent(t, 0);
}

/// A number in canonical form times a power of ten is in canonical form.
pub proof fn lemma_shifted_wf(d: DecimalView, x: int)
    requires
        d.wf(),
    ensures
        shifted(d, x).wf(),
{
    let digits = d.whole + d.fraction;
    let point = d.whole.len() + x;
    assert forall|i: int| 0 <= i < digits.len() implies is_digit(#[trigger] digits[i]) by {
        if i < d.whole.len() {
            assert(digits[i] == d.whole[i]);
        } else {
            assert(digits[i] == d.fraction[i - d.whole.len()]);
        }
    }
    let whole_raw = if point <= 0 {
        Seq::empty()
    } else if point >= digits.len() {
        digits + zeros(point - digits.len())
    } else {
        digits.subrange(0, point)
    };
    let fraction_raw = if point <= 0 {
        zeros(-point) + digits
    } else if point >= digits.len() {
        Seq::empty()
    } else {
        digits.subrange(point, digits.len() as int)
    };
    assert forall|i: int| 0 <= i < whole_raw.len() implies is_digit(#[trigger] whole_raw[i]) by {
        if point >= digits.len() {
            if i < digits.len() {
                assert(whole_raw[i] == digits[i]);
            }
        } else {
            assert(whole_raw[i] == digits[i]);
        }
    }
    assert forall|i: int| 0 <= i < fraction_raw.len() implies is_digit(
        #[trigger] fraction_raw[i],
    ) by {
        if point <= 0 {
            if i >= -point {
                assert(fraction_raw[i] == digits[i + point]);
            }
        } else {
            assert(fraction_raw[i] == digits[i + point]);
        }
    }
    lemma_skip_zeros_bounds(whole_raw, 0);
    lemma_skip_zeros_back_bounds(fraction_raw, fraction_raw.len() as int);
    let whole = without_leading_zeros(whole_raw);
    let fraction = without_trailing_zeros(fraction_raw);
    assert forall|i: int| 0 <= i < whole.len() implies is_digit(#[trigger] whole[i]) by {
        assert(whole[i] == whole_raw[i + skip_zeros(whole_raw, 0)]);
    }
    assert forall|i: int| 0 <= i < fraction.len() implies is_digit(#[trigger] fraction[i]) by {
        assert(fraction[i] == fraction_raw[i]);
    }
}

/// Whatever text `decimal_of` accepts, the number it gives is in canonical
/// form.
pub proof fn lemma_decimal_of_wf(t: Seq<char>)
    ensures
        decimal_of(t) matches Some(d) ==> d.wf(),
{
    lemma_find_exponent(t, 0);
    let e = find_exponent(t, 0);
    if e < t.len() {
        lemma_plain_decimal_of_wf(t.subrange(0, e));
        if plain_decimal_of(t.subrange(0, e)) is Some && exponent_of(
            t.subrange(e + 1, t.len() as int),
        ) is Some {
            lemma_shifted_wf(
                plain_decimal_of(t.subrange(0, e))->0,
                exponent_of(t.subrange(e + 1, t.len() as int))->0,
            );
        }
    } else {
        lemma_plain_decimal_of_wf(t);
    }
}

/// Whatever text `plain_decimal_of` accepts, the number it gives is in
/// canonical form.
pub proof fn lemma_plain_decimal_of_wf(t: Seq<char>)
    ensures
        plain_decimal_of(t) matches Some(d) ==> d.wf(),
{
    let signed = t.len() > 0 && (t[0] == '+' || t[0] == '-');
    let i = if signed { 1int } else { 0int };
    lemma_skip_digits_bounds(t, i);
    lemma_skip_digits_are_digits(t, i);
    let a = skip_digits(t, i);
    lemma_skip_zeros_bounds(t.subrange(i, a), 0);
    let pointed = a < t.len() && t[a] == '.';
    if pointed {
        lemma_skip_digits_bounds(t, a + 1);
        lemma_skip_digits_are_digits(t, a + 1);
        let b = skip_digits(t, a + 1);
        lemma_skip_zeros_back_bounds(t.subrange(a + 1, b), b - (a + 1));
    }
}

/// `n` zeros.
fn zero_chars(n: usize) -> (r: Vec<char>)
    ensures
        r@ == zeros(n as int),
{
    let mut r: Vec<char> = Vec::new();
    let mut k: usize = 0;
    while k < n
        invariant
            k <= n,
            r@ == zeros(k as int),
        decreases n - k,
    {
        r.push('0');
        k += 1;
        assert(r@ =~= zeros(k as int));
    }
    r
}

/// The characters of `v` without the zeros at its start.
fn strip_leading_zeros(v: &Vec<char>) -> (r: Vec<char>)
    ensures
        r@ == without_leading_zeros(v@),
{
    let mut z: usize = 0;
    while z < v.len() && v[z] == '0'
        invariant
            z <= v.len(),
            skip_zeros(v@, z as int) == skip_zeros(v@, 0),
        decreases v.len() - z,
    {
        z += 1;
    }
    slice_of(v, z, v.len())
}

/// The characters of `v` without the zeros at its end.
fn strip_trailing_zeros(v: &Vec<char>) -> (r: Vec<char>)
    ensures
        r@ == without_trailing_zeros(v@),
{
    let mut e: usize = v.len();
    while e > 0 && v[e - 1] == '0'
        invariant
            e <= v.len(),
            skip_zeros_back(v@, e as int) == skip_zeros_back(v@, v.len() as int),
        decreases e,
    {
        e -= 1;
    }
    slice_of(v, 0, e)
}

/// Reads an exponent: whether it is below zero, and its size.
#[verifier::loop_isolation(false)]
fn read_exponent(x: &Vec<char>) -> (r: Option<(bool, usize)>)
    ensures
        match r {
            Some((below_zero, places)) => places <= EXPONENT_LIMIT && exponent_of(x@) == Some(
                if below_zero {
                    -(places as int)
                } else {
                    places as int
                },
            ),
            None => exponent_of(x@) is None,
        },
{
    let signed = x.len() > 0 && (x[0] == '+' || x[0] == '-');
    let start: usize = if signed { 1 } else { 0 };
    let ghost digits = x@.subrange(start as int, x.len() as int);
    assert(x@.subrange(0, x.len() as int) =~= x@);
    if start == x.len() {
        return None;
    }
    let mut acc: usize = 0;
    let mut k: usize = start;
    while k < x.len()
        invariant
            start <= k <= x.len(),
            all_digits(digits.take(k - start)),
            acc == digits_value(digits.take(k - start)),
            acc <= EXPONENT_LIMIT,
        decreases x.len() - k,
    {
        let c = x[k];
        if !char_is_digit(c) {
            assert(!is_digit(digits[k - start]));
            return None;
        }
        let d: usize = (c as u32 - 0x30) as usize;
        proof {
            assert(digits.take(k - start + 1).drop_last() =~= digits.take(k - start));
            assert(digits.take(k - start + 1).last() == c);
            lemma_digits_value_grows(digits, k - start + 1);
            assert forall|i: int| 0 <= i < k - start + 1 implies is_digit(
                #[trigger] digits.take(k - start + 1)[i],
            ) by {
                if i < k - start {
                    assert(digits.take(k - start)[i] == digits[i]);
                }
            }
            assert(digit_value(c) == d);
        }
        if acc * 10 + d > EXPONENT_LIMIT {
            return None;
        }
        acc = acc * 10 + d;
        k += 1;
    }
    assert(digits.take(k - start) =~= digits);
    let below_zero = signed && x[0] == '-';
    if below_zero && acc == 0 {
        Some((false, 0))
    } else {
        Some((below_zero, acc))
    }
}

/// An exact decimal number in canonical form.
pub struct Decimal {
    negative: bool,
    whole: Vec<char>,
    fraction: Vec<char>,
}

impl View for Decimal {
    type V = DecimalView;

    closed spec fn view(&self) -> DecimalView {
        DecimalView { negative: self.negative, whole: self.whole@, fraction: self.fraction@ }
    }
}

impl Decimal {
    /// Every number is held in canonical form.
    #[verifier::type_invariant]
    pub open spec fn canonical(&self) -> bool {
        self@.wf()
    }

    /// The number zero.
    pub fn zero() -> (r: Decimal)
        ensures
            r@ == zero_view(),
            r@.wf(),
    {
        Decimal { negative: false, whole: Vec::new(), fraction: Vec::new() }
    }

    /// The number one.
    pub fn one() -> (r: Decimal)
        ensures
            r@ == one_view(),
            r@.wf(),
    {
        let mut whole: Vec<char> = Vec::new();
        whole.push('1');
        assert(whole@ =~= seq!['1']);
        Decimal { negative: false, whole, fraction: Vec::new() }
    }

    /// Reads a number from characters that hold an optional sign, digits,
    /// at most one point, and optionally an exponent.
    pub fn from_chars(t: &Vec<char>) -> (r: Option<Decimal>)
        ensures
            match r {
                Some(d) => decimal_of(t@) == Some(d@) && d@.wf(),
                None => decimal_of(t@) is None,
            },
    {
        let mut e: usize = 0;
        while e < t.len() && !(t[e] == 'e' || t[e] == 'E')
            invariant
                e <= t.len(),
                find_exponent(t@, e as int) == find_exponent(t@, 0),
            decreases t.len() - e,
        {
            e += 1;
        }
        if e >= t.len() {
            return Decimal::from_plain_chars(t);
        }
        let mantissa = slice_of(t, 0, e);
        let exponent = slice_of(t, e + 1, t.len());
        match (Decimal::from_plain_chars(&mantissa), read_exponent(&exponent)) {
            (Some(d), Some((below_zero, places))) => Some(d.times_power_of_ten(below_zero, places)),
            _ => None,
        }
    }

    /// The number times ten to the power of `places`, or of minus `places`
    /// where `below_zero` says so.
    pub fn times_power_of_ten(&self, below_zero: bool, places: usize) -> (r: Decimal)
        requires
            places <= EXPONENT_LIMIT,
        ensures
            r@ == shifted(
                self@,
                if below_zero {
                    -(places as int)
                } else {
                    places as int
                },
            ),
            r@.wf(),
    {
        proof {
            use_type_invariant(self);
            lemma_shifted_wf(
                self@,
                if below_zero {
                    -(places as int)
                } else {
                    places as int
                },
            );
        }
        let ghost x: int = if below_zero { -(places as int) } else { places as int };
        let ghost point: int = self.whole@.len() + x;
        let mut digits: Vec<char> = Vec::new();
        let mut i: usize = 0;
        while i < self.whole.len()
            invariant
                i <= self.whole.len(),
                digits@ == self.whole@.take(i as int),
            decreases self.whole.len() - i,
        {
            digits.push(self.whole[i]);
            i += 1;
            assert(digits@ =~= self.whole@.take(i as int));
        }
        assert(self.whole@.take(self.whole.len() as int) =~= self.whole@);
        let mut j: usize = 0;
        while j < self.fraction.len()
            invariant
                j <= self.fraction.len(),
                digits@ == self.whole@ + self.fraction@.take(j as int),
            decreases self.fraction.len() - j,
        {
            digits.push(self.fraction[j]);
            j += 1;
            assert(digits@ =~= self.whole@ + self.fraction@.take(j as int));
        }
        assert(self.fraction@.take(self.fraction.len() as int) =~= self.fraction@);
        let whole_len = self.whole.len();
        let fraction_len = self.fraction.len();
        assert(digits.len() == whole_len + fraction_len);
        let (whole_raw, fraction_raw) = if below_zero && places >= whole_len {
            // The point moves to the left of all digits.
            let mut fraction = zero_chars(places - whole_len);
            let ghost head = fraction@;
            let mut k: usize = 0;
            while k < digits.len()
                invariant
                    k <= digits.len(),
                    fraction@ == head + digits@.take(k as int),
                decreases digits.len() - k,
            {
                fraction.push(digits[k]);
                k += 1;
                assert(fraction@ =~= head + digits@.take(k as int));
            }
            assert(digits@.take(digits.len() as int) =~= digits@);
            assert(point <= 0);
            (Vec::new(), fraction)
        } else if !below_zero && places >= fraction_len {
            // The point moves to the right of all digits.
            let mut whole = slice_of(&digits, 0, digits.len());
            let ghost head = whole@;
            assert(head =~= digits@);
            let n = places - fraction_len;
            let mut k: usize = 0;
            while k < n
                invariant
                    k <= n,
                    whole@ == head + zeros(k as int),
                decreases n - k,
            {
                whole.push('0');
                k += 1;
                assert(whole@ =~= head + zeros(k as int));
            }
            if whole_len == 0 && fraction_len == 0 && places == 0 {
                // No digits and no places: the point is at zero.
                assert(point <= 0);
                assert(whole@ =~= Seq::<char>::empty());
                assert(zeros(0) + digits@ =~= Seq::<char>::empty());
                (whole, Vec::new())
            } else {
                assert(point >= digits.len() && point > 0);
                (whole, Vec::new())
            }
        } else {
            let at: usize = if below_zero {
                assert(places < whole_len);
                whole_len - places
            } else {
                assert(places < fraction_len);
                whole_len + places
            };
            assert(at as int == point);
            let whole = slice_of(&digits, 0, at);
            let fraction = slice_of(&digits, at, digits.len());
            proof {
                if point <= 0 {
                    assert(whole@ =~= Seq::<char>::empty());
                    assert(fraction@ =~= zeros(-point) + digits@);
                } else if point >= digits.len() {
                    assert(whole@ =~= digits@ + zeros(point - digits.len()));
                    assert(fraction@ =~= Seq::<char>::empty());
                }
            }
            (whole, fraction)
        };
        let whole = strip_leading_zeros(&whole_raw);
        let fraction = strip_trailing_zeros(&fraction_raw);
        let zero = whole.len() == 0 && fraction.len() == 0;
        Decimal { negative: self.negative && !zero, whole, fraction }
    }

    /// Reads a number without an exponent from characters that hold an
    /// optional sign, digits and at most one point.
    pub fn from_plain_chars(t: &Vec<char>) -> (r: Option<Decimal>)
        ensures
            match r {
                Some(d) => plain_decimal_of(t@) == Some(d@) && d@.wf(),
                None => plain_decimal_of(t@) is None,
            },
    {
        let n = t.len();
        let signed = n > 0 && (t[0] == '+' || t[0] == '-');
        let i: usize = if signed { 1 } else { 0 };
        let a = scan_digits(t, i);
        let pointed = a < n && t[a] == '.';
        let b: usize = if pointed { scan_digits(t, a + 1) } else { a };
        let n_digits: usize = (a - i) + (if pointed { b - (a + 1) } else { 0 });
        if b != n || n_digits == 0 {
            return None;
        }
        proof {
            lemma_plain_decimal_of_wf(t@);
        }
        let mut z: usize = i;
        while z < a && t[z] == '0'
            invariant
                i <= z <= a <= t.len(),
                skip_zeros(t@.subrange(i as int, a as int), z - i) == skip_zeros(
                    t@.subrange(i as int, a as int),
                    0,
                ),
            decreases a - z,
        {
            z += 1;
        }
        let whole = slice_of(t, z, a);
        let fraction = if pointed {
            let mut e: usize = b;
            while e > a + 1 && t[e - 1] == '0'
                invariant
                    a + 1 <= e <= b <= t.len(),
                    skip_zeros_back(t@.subrange(a + 1, b as int), e - (a + 1)) == skip_zeros_back(
                        t@.subrange(a + 1, b as int),
                        b - (a + 1),
                    ),
                decreases e,
            {
                e -= 1;
            }
            slice_of(t, a + 1, e)
        } else {
            Vec::new()
        };
        let zero = whole.len() == 0 && fraction.len() == 0;
        let negative = signed && t[0] == '-' && !zero;
        Some(Decimal { negative, whole, fraction })
    }

    /// Reads a numeric field: blanks are dropped, `,` counts as the point.
    pub fn parse(text: &str) -> (r: Option<Decimal>)
        ensures
            match r {
                Some(d) => number_of(text@) == Some(d@) && d@.wf(),
                None => number_of(text@) is None,
            },
    {
        let t = chars_of(text);
        let mut plain: Vec<char> = Vec::new();
        let mut k: usize = 0;
        while k < t.len()
            invariant
                k <= t.len(),
                plain@ == with_points(without_blanks(t@.take(k as int))),
            decreases t.len() - k,
        {
            let c = t[k];
            proof {
                assert(t@.take(k + 1).drop_last() =~= t@.take(k as int));
                assert(t@.take(k + 1).last() == c);
            }
            if c != ' ' {
                plain.push(if c == ',' { '.' } else { c });
            }
            k += 1;
            assert(plain@ =~= with_points(without_blanks(t@.take(k as int))));
        }
        assert(t@.take(t.len() as int) =~= t@);
        Decimal::from_chars(&plain)
    }

    /// Whether the number is greater than zero.
    pub fn is_positive(&self) -> (b: bool)
        ensures
            b == self@.is_positive(),
    {
        !self.negative && (self.whole.len() > 0 || self.fraction.len() > 0)
    }

    /// Whether the number is below zero.
    pub fn is_negative(&self) -> (b: bool)
        ensures
            b == self@.negative,
    {
        self.negative
    }

    /// A copy of the number.
    pub fn copy(&self) -> (r: Decimal)
        ensures
            r@ == self@,
            r@.wf(),
    {
        proof {
            use_type_invariant(self);
        }
        let whole = slice_of(&self.whole, 0, self.whole.len());
        let fraction = slice_of(&self.fraction, 0, self.fraction.len());
        assert(whole@ =~= self.whole@);
        assert(fraction@ =~= self.fraction@);
        Decimal { negative: self.negative, whole, fraction }
    }

    /// The characters of the number in canonical writing, with a decimal
    /// point.
    pub fn to_chars(&self) -> (r: Vec<char>)
        ensures
            r@ == self@.text(),
    {
        let mut out: Vec<char> = Vec::new();
        if self.negative {
            out.push('-');
        }
        let ghost head = out@;
        if self.whole.len() == 0 {
            out.push('0');
        } else {
            let mut i: usize = 0;
            while i < self.whole.len()
                invariant
                    i <= self.whole.len(),
                    out@ == head + self.whole@.take(i as int),
                decreases self.whole.len() - i,
            {
                out.push(self.whole[i]);
                i += 1;
                assert(out@ =~= head + self.whole@.take(i as int));
            }
            assert(self.whole@.take(self.whole.len() as int) =~= self.whole@);
        }
        let ghost middle = out@;
        if self.fraction.len() > 0 {
            out.push('.');
            let mut i: usize = 0;
            while i < self.fraction.len()
                invariant
                    i <= self.fraction.len(),
                    out@ == middle + seq!['.'] + self.fraction@.take(i as int),
                decreases self.fraction.len() - i,
            {
                out.push(self.fraction[i]);
                i += 1;
                assert(out@ =~= middle + seq!['.'] + self.fraction@.take(i as int));
            }
            assert(self.fraction@.take(self.fraction.len() as int) =~= self.fraction@);
        }
        assert(out@ =~= self@.text());
        out
    }

    /// The number in canonical writing, with a decimal point.
    pub fn to_text(&self) -> (r: String)
        ensures
            r@ == self@.text(),
    {
        let chars = self.to_chars();
        text_of(&chars)
    }
}

} // verus!
