//! Reading an amount and its units from a short free text such as `/100 г`.

use vstd::prelude::*;
use crate::number::{
    decimal_of, is_exponent_mark, lemma_no_exponent, one_view, plain_decimal_of, skip_zeros,
    skip_zeros_back, with_points, zero_view, Decimal, DecimalView,
};
use crate::text::{
    char_is_digit, char_is_space, chars_of, is_digit, is_space, scan_digits, scan_spaces,
    scan_spaces_back, scan_word_back, skip_digits, skip_spaces, skip_spaces_back, skip_word_back,
    slice_of, text_of,
};

verus! {

/// Whether `c` has the Unicode property `Alphabetic`, as `char::is_alphabetic`
/// reports it.
pub uninterp spec fn is_letter(c: char) -> bool;

/// `char::is_alphabetic`: whether the character has the Unicode property
/// `Alphabetic`. The result is given the name [`is_letter`]; nothing more is
/// claimed of it.
#[verifier::external_body]
fn char_is_letter(c: char) -> (b: bool)
    ensures
        b == is_letter(c),
{
    c.is_alphabetic()
}

/// A character that units are written in: `%`, or a letter that is neither
/// white space nor a digit.
pub open spec fn is_unit_char(c: char) -> bool {
    c == '%' || (is_letter(c) && !is_space(c) && !is_digit(c))
}

/// The units of a text that names none: pieces.
pub open spec fn default_units() -> Seq<char> {
    seq!['ш', 'т']
}

/// The first index at or after `i` that holds no `/`.
pub open spec fn skip_slashes(s: Seq<char>, i: int) -> int
    decreases s.len() - i,
{
    if 0 <= i < s.len() && s[i] == '/' {
        skip_slashes(s, i + 1)
    } else {
        i
    }
}

/// The first index at or after `i` that holds no unit character.
pub open spec fn skip_unit(s: Seq<char>, i: int) -> int
    decreases s.len() - i,
{
    if 0 <= i < s.len() && is_unit_char(s[i]) {
        skip_unit(s, i + 1)
    } else {
        i
    }
}

/// `input` without the slashes at its start and the white space after them.
pub open spec fn stripped(input: Seq<char>) -> Seq<char> {
    let j = skip_spaces(input, skip_slashes(input, 0));
    if 0 <= j <= input.len() {
        input.subrange(j, input.len() as int)
    } else {
        Seq::empty()
    }
}

/// The compact form, a number directly followed by its units (`250мл`):
/// optional white space, digits, optionally a point or comma with digits
/// after it, then unit characters, then optional white space and the end.
/// Gives the text of the number and the text of the units.
pub open spec fn compact_form(r: Seq<char>) -> Option<(Seq<char>, Seq<char>)> {
    let a = skip_spaces(r, 0);
    let b = skip_digits(r, a);
    let has_fraction = b + 1 < r.len() && (r[b] == '.' || r[b] == ',') && is_digit(r[b + 1]);
    let c = if has_fraction { skip_digits(r, b + 1) } else { b };
    let d = skip_unit(r, c);
    let e = skip_spaces(r, d);
    if 0 <= a < b <= c <= d <= r.len() && e == r.len() {
        Some((r.subrange(a, c), r.subrange(c, d)))
    } else {
        None
    }
}

/// `c` as a small letter, where it is a capital letter of the basic Latin
/// alphabet.
pub open spec fn lowered(c: char) -> char {
    if 'A' <= c <= 'Z' {
        ((c as u32) + 32) as char
    } else {
        c
    }
}

/// Whether `token` names a number that is not finite: an optional sign and
/// then `inf`, `infinity` or `nan`, in capital or small letters.
pub open spec fn names_no_finite_number(token: Seq<char>) -> bool {
    let signed = token.len() > 0 && (token[0] == '+' || token[0] == '-');
    let word = if signed {
        token.subrange(1, token.len() as int)
    } else {
        token
    };
    let small = Seq::new(word.len(), |i: int| lowered(word[i]));
    small == seq!['i', 'n', 'f'] || small == seq!['i', 'n', 'f', 'i', 'n', 'i', 't', 'y'] || small
        == seq!['n', 'a', 'n']
}

/// The number that `token` writes, with `,` read as the point. A token
/// that names a number that is not finite counts as zero, which no
/// validation lets pass; any other token that writes no number counts as
/// one.
pub open spec fn number_or_one(token: Seq<char>) -> DecimalView {
    match decimal_of(with_points(token)) {
        Some(d) => d,
        None => if names_no_finite_number(token) {
            zero_view()
        } else {
            one_view()
        },
    }
}

/// `units`, or the default where `units` is empty.
pub open spec fn units_or_default(units: Seq<char>) -> Seq<char> {
    if units.len() == 0 {
        default_units()
    } else {
        units
    }
}

/// The amount and the units that the words of `r` give: of two or more
/// words, the last is the units and the one before it the amount; a single
/// word is the amount; no word gives the defaults.
pub open spec fn from_words(r: Seq<char>) -> (DecimalView, Seq<char>) {
    let e1 = skip_spaces_back(r, r.len() as int);
    let s1 = skip_word_back(r, e1);
    let e2 = skip_spaces_back(r, s1);
    let s2 = skip_word_back(r, e2);
    if !(0 <= s2 <= e2 <= s1 <= e1 <= r.len()) || e1 == 0 {
        (one_view(), default_units())
    } else if e2 == 0 {
        (number_or_one(r.subrange(s1, e1)), default_units())
    } else {
        (number_or_one(r.subrange(s2, e2)), r.subrange(s1, e1))
    }
}

/// The amount and the units that `input` gives.
pub open spec fn amount_units_of(input: Seq<char>) -> (DecimalView, Seq<char>) {
    let r = stripped(input);
    match compact_form(r) {
        Some((number, units)) => (number_or_one(number), units_or_default(units)),
        None => from_words(r),
    }
}

/// A run of digits from `i` to `j` is what `skip_digits` passes over.
pub proof fn lemma_digits_run(s: Seq<char>, i: int, j: int)
    requires
        0 <= i <= j <= s.len(),
        forall|k: int| i <= k < j ==> is_digit(#[trigger] s[k]),
        j < s.len() ==> !is_digit(s[j]),
    ensures
        skip_digits(s, i) == j,
    decreases j - i,
{
    if i < j {
        lemma_digits_run(s, i + 1, j);
    }
}

/// A word from `i` to `j`, with white space or nothing before it, is what
/// `skip_word_back` passes over.
pub proof fn lemma_word_back_run(s: Seq<char>, i: int, j: int)
    requires
        0 <= i <= j <= s.len(),
        forall|k: int| i <= k < j ==> !is_space(#[trigger] s[k]),
        i > 0 ==> is_space(s[i - 1]),
    ensures
        skip_word_back(s, j) == i,
    decreases j - i,
{
    if i < j {
        lemma_word_back_run(s, i, j - 1);
    }
}

/// The canonical writing of a number that is not negative reads back as
/// that number.
pub proof fn lemma_text_reads_back(x: DecimalView)
    requires
        x.wf(),
        !x.negative,
    ensures
        decimal_of(x.text()) == Some(x),
        plain_decimal_of(x.text()) == Some(x),
{
    let t = x.text();
    let whole = if x.whole.len() == 0 { seq!['0'] } else { x.whole };
    let a = whole.len() as int;
    assert(t.len() > 0 && t[0] == whole[0]);
    assert forall|k: int| 0 <= k < a implies is_digit(#[trigger] t[k]) by {
        assert(t[k] == whole[k]);
        if x.whole.len() > 0 {
            assert(is_digit(x.whole[k]));
        }
    }
    assert(is_digit(t[0]));
    if x.fraction.len() == 0 {
        assert(t =~= whole);
        lemma_digits_run(t, 0, a);
    } else {
        assert(t =~= whole + seq!['.'] + x.fraction);
        assert(t[a] == '.');
        lemma_digits_run(t, 0, a);
        let b = a + 1 + x.fraction.len();
        assert forall|k: int| a + 1 <= k < b implies is_digit(#[trigger] t[k]) by {
            assert(t[k] == x.fraction[k - (a + 1)]);
        }
        lemma_digits_run(t, a + 1, b);
        let f = t.subrange(a + 1, b);
        assert(f =~= x.fraction);
        assert(skip_zeros_back(f, f.len() as int) == f.len());
        assert(t.subrange(a + 1, f.len() + a + 1) =~= x.fraction);
    }
    let w = t.subrange(0, a);
    assert(w =~= whole);
    if x.whole.len() == 0 {
        assert(skip_zeros(w, 1) == 1);
        assert(skip_zeros(w, 0) == 1);
        assert(t.subrange(1, a) =~= x.whole);
    } else {
        assert(skip_zeros(w, 0) == 0);
        assert(t.subrange(0, a) =~= x.whole);
    }
    assert(plain_decimal_of(t)->0.whole =~= x.whole);
    assert(plain_decimal_of(t)->0.fraction =~= x.fraction);
    assert forall|k: int| 0 <= k < t.len() implies !is_exponent_mark(#[trigger] t[k]) by {
        if k < a {
            assert(is_digit(t[k]));
        } else if k > a {
            assert(t[k] == x.fraction[k - (a + 1)]);
            assert(is_digit(x.fraction[k - (a + 1)]));
        }
    }
    lemma_no_exponent(t);
}

/// Whether no character of `units` is white space.
pub open spec fn no_space(units: Seq<char>) -> bool {
    forall|i: int| 0 <= i < units.len() ==> !is_space(#[trigger] units[i])
}

/// A number that is not negative, written after a slash with a point or a
/// comma before its fraction, then a blank and units without white space,
/// reads back as that number and these units. The point and the comma read
/// alike.
pub proof fn lemma_amount_units_round_trip(x: DecimalView, point: char, units: Seq<char>)
    requires
        x.wf(),
        !x.negative,
        point == '.' || point == ',',
        units.len() > 0,
        no_space(units),
    ensures
        amount_units_of(seq!['/'] + x.text_with(point) + seq![' '] + units) == (x, units),
{
    let number = x.text_with(point);
    let input = seq!['/'] + number + seq![' '] + units;
    let whole = if x.whole.len() == 0 { seq!['0'] } else { x.whole };
    let a = whole.len() as int;
    let c = number.len() as int;
    if x.fraction.len() == 0 {
        assert(number =~= whole);
    } else {
        assert(number =~= whole + seq![point] + x.fraction);
    }
    assert forall|k: int| 0 <= k < a implies is_digit(#[trigger] number[k]) by {
        assert(number[k] == whole[k]);
        if x.whole.len() > 0 {
            assert(is_digit(x.whole[k]));
        }
    }
    assert forall|k: int| 0 <= k < c implies !is_space(#[trigger] number[k]) by {
        if k < a {
            assert(is_digit(number[k]));
        } else if k == a {
            assert(number[k] == point);
        } else {
            assert(number[k] == x.fraction[k - (a + 1)]);
            assert(is_digit(x.fraction[k - (a + 1)]));
        }
    }
    // The slash goes, and nothing else.
    assert(input[0] == '/');
    assert(input[1] == number[0]);
    assert(is_digit(number[0]));
    assert(skip_slashes(input, 1) == 1);
    assert(skip_slashes(input, 0) == 1);
    assert(skip_spaces(input, 1) == 1);
    let r = stripped(input);
    assert(r =~= number + seq![' '] + units);
    assert forall|k: int| 0 <= k < c implies r[k] == number[k] by {}
    assert(r[c] == ' ');
    assert forall|k: int| 0 <= k < units.len() implies r[c + 1 + k] == units[k] by {}
    // The compact form does not apply: the number is followed by a blank.
    assert(skip_spaces(r, 0) == 0);
    assert forall|k: int| 0 <= k < a implies is_digit(#[trigger] r[k]) by {
        assert(r[k] == number[k]);
    }
    assert(!is_digit(r[a])) by {
        if a < c {
            assert(r[a] == point);
        }
    }
    lemma_digits_run(r, 0, a);
    let has_fraction = a + 1 < r.len() && (r[a] == '.' || r[a] == ',') && is_digit(r[a + 1]);
    if x.fraction.len() > 0 {
        assert(r[a] == point);
        assert(r[a + 1] == x.fraction[0]);
        assert(is_digit(x.fraction[0]));
        assert forall|k: int| a + 1 <= k < c implies is_digit(#[trigger] r[k]) by {
            assert(r[k] == x.fraction[k - (a + 1)]);
        }
        lemma_digits_run(r, a + 1, c);
        assert(has_fraction);
    } else {
        assert(a == c);
        assert(!has_fraction);
    }
    assert(!is_unit_char(r[c]));
    assert(skip_unit(r, c) == c);
    assert(!is_space(r[c + 1])) by {
        assert(r[c + 1] == units[0]);
    }
    assert(skip_spaces(r, c + 1) == c + 1);
    assert(skip_spaces(r, c) == c + 1);
    assert(compact_form(r) is None);
    // Word by word: the units are the last word, the number the one before.
    let n = r.len() as int;
    assert(!is_space(r[n - 1])) by {
        assert(r[n - 1] == units[units.len() - 1]);
    }
    assert(skip_spaces_back(r, n) == n);
    assert forall|k: int| c + 1 <= k < n implies !is_space(#[trigger] r[k]) by {
        assert(r[k] == units[k - (c + 1)]);
    }
    lemma_word_back_run(r, c + 1, n);
    assert(!is_space(r[c - 1])) by {
        assert(r[c - 1] == number[c - 1]);
    }
    assert(skip_spaces_back(r, c) == c);
    assert(skip_spaces_back(r, c + 1) == c);
    assert forall|k: int| 0 <= k < c implies !is_space(#[trigger] r[k]) by {
        assert(r[k] == number[k]);
    }
    lemma_word_back_run(r, 0, c);
    assert(r.subrange(0, c) =~= number);
    assert(r.subrange(c + 1, n) =~= units);
    assert(with_points(number) =~= x.text()) by {
        assert forall|k: int| 0 <= k < c implies with_points(number)[k] == x.text()[k] by {
            if k < a {
                assert(is_digit(number[k]));
            } else if k > a {
                assert(number[k] == x.fraction[k - (a + 1)]);
                assert(is_digit(x.fraction[k - (a + 1)]));
            }
        }
    }
    lemma_text_reads_back(x);
}

/// Whether `units` is one of the usual units: grams, kilograms,
/// millilitres, pieces or per cent.
pub open spec fn usual_units(units: Seq<char>) -> bool {
    units == seq!['г'] || units == seq!['к', 'г'] || units == seq!['м', 'л'] || units == seq![
        'ш',
        'т',
    ] || units == seq!['%']
}

/// An amount greater than zero with one of the usual units reads back as
/// written, with a point as with a comma.
pub proof fn lemma_usual_units_round_trip(x: DecimalView, units: Seq<char>)
    requires
        x.wf(),
        x.is_positive(),
        usual_units(units),
    ensures
        amount_units_of(seq!['/'] + x.text_with('.') + seq![' '] + units) == (x, units),
        amount_units_of(seq!['/'] + x.text_with(',') + seq![' '] + units) == (x, units),
{
    assert(no_space(units));
    lemma_amount_units_round_trip(x, '.', units);
    lemma_amount_units_round_trip(x, ',', units);
}

/// The characters of the default units.
fn default_unit_chars() -> (r: Vec<char>)
    ensures
        r@ == default_units(),
{
    let mut r: Vec<char> = Vec::new();
    r.push('ш');
    r.push('т');
    assert(r@ =~= default_units());
    r
}

/// `c` as a small letter.
fn lower(c: char) -> (r: char)
    ensures
        r == lowered(c),
{
    let n: u32 = c as u32;
    if 0x41 <= n && n <= 0x5A {
        ((n + 32) as u8) as char
    } else {
        c
    }
}

/// Whether the characters of `token` from `start` on are those of `word`,
/// in capital or small letters.
fn spells(token: &Vec<char>, start: usize, word: &Vec<char>) -> (r: bool)
    requires
        start <= token.len(),
    ensures
        r == (Seq::new(
            (token.len() - start) as nat,
            |i: int| lowered(token@.subrange(start as int, token.len() as int)[i]),
        ) == word@),
{
    let ghost rest = token@.subrange(start as int, token.len() as int);
    let ghost small = Seq::new(rest.len(), |i: int| lowered(rest[i]));
    if token.len() - start != word.len() {
        return false;
    }
    let mut i: usize = 0;
    while i < word.len()
        invariant
            i <= word.len(),
            start <= token.len(),
            token.len() - start == word.len(),
            rest == token@.subrange(start as int, token.len() as int),
            small == Seq::new(rest.len(), |i: int| lowered(rest[i])),
            forall|k: int| 0 <= k < i ==> small[k] == word@[k],
        decreases word.len() - i,
    {
        if lower(token[start + i]) != word[i] {
            assert(small[i as int] != word@[i as int]);
            return false;
        }
        i += 1;
    }
    assert(small =~= word@);
    true
}

/// Whether `token` names a number that is not finite.
fn is_no_finite_number(token: &Vec<char>) -> (r: bool)
    ensures
        r == names_no_finite_number(token@),
{
    let signed = token.len() > 0 && (token[0] == '+' || token[0] == '-');
    let start: usize = if signed { 1 } else { 0 };
    let mut inf: Vec<char> = Vec::new();
    inf.push('i');
    inf.push('n');
    inf.push('f');
    let mut infinity: Vec<char> = Vec::new();
    infinity.push('i');
    infinity.push('n');
    infinity.push('f');
    infinity.push('i');
    infinity.push('n');
    infinity.push('i');
    infinity.push('t');
    infinity.push('y');
    let mut nan: Vec<char> = Vec::new();
    nan.push('n');
    nan.push('a');
    nan.push('n');
    assert(inf@ =~= seq!['i', 'n', 'f']);
    assert(infinity@ =~= seq!['i', 'n', 'f', 'i', 'n', 'i', 't', 'y']);
    assert(nan@ =~= seq!['n', 'a', 'n']);
    assert(token@.subrange(0, token.len() as int) =~= token@);
    spells(token, start, &inf) || spells(token, start, &infinity) || spells(token, start, &nan)
}

/// Reads the number that `token` writes, with `,` as the point; zero where
/// it names a number that is not finite, and one where it writes no number
/// at all.
fn read_number_or_one(token: &Vec<char>) -> (r: Decimal)
    ensures
        r@ == number_or_one(token@),
        r@.wf(),
{
    let mut pointed: Vec<char> = Vec::new();
    let mut k: usize = 0;
    while k < token.len()
        invariant
            k <= token.len(),
            pointed@ == with_points(token@.take(k as int)),
        decreases token.len() - k,
    {
        let c = token[k];
        pointed.push(if c == ',' { '.' } else { c });
        k += 1;
        assert(pointed@ =~= with_points(token@.take(k as int)));
    }
    assert(token@.take(token.len() as int) =~= token@);
    match Decimal::from_chars(&pointed) {
        Some(d) => d,
        None => {
            if is_no_finite_number(token) {
                Decimal::zero()
            } else {
                Decimal::one()
            }
        },
    }
}

/// Reads the amount and the units from a short text.
///
/// Slashes at the start and the white space after them are dropped. A number
/// directly followed by letters or `%` is the amount with its units
/// (`250мл`). Otherwise the text is taken word by word: of two or more words
/// the last is the units and the one before it the amount, a single word
/// is the amount. A missing or unreadable amount is one, missing units are
/// pieces (`шт`); an amount that is written as not finite (`inf`, `nan`) is
/// zero, so that validation rejects it.
pub fn parse_amount_units(input: &str) -> (r: (Decimal, String))
    ensures
        (r.0@, r.1@) == amount_units_of(input@),
        r.0@.wf(),
{
    let t = chars_of(input);
    let mut i: usize = 0;
    while i < t.len() && t[i] == '/'
        invariant
            i <= t.len(),
            skip_slashes(t@, i as int) == skip_slashes(t@, 0),
        decreases t.len() - i,
    {
        i += 1;
    }
    let j = scan_spaces(&t, i);
    let r = slice_of(&t, j, t.len());
    assert(r@ == stripped(input@));

    let n = r.len();
    let a = scan_spaces(&r, 0);
    let b = scan_digits(&r, a);
    let has_fraction = b < n && b + 1 < n && (r[b] == '.' || r[b] == ',') && char_is_digit(
        r[b + 1],
    );
    let c = if has_fraction { scan_digits(&r, b + 1) } else { b };
    let mut d: usize = c;
    while d < n && (r[d] == '%' || (char_is_letter(r[d]) && !char_is_space(r[d]) && !char_is_digit(
        r[d],
    )))
        invariant
            c <= d <= n,
            n == r.len(),
            skip_unit(r@, d as int) == skip_unit(r@, c as int),
        decreases n - d,
    {
        d += 1;
    }
    let e = scan_spaces(&r, d);
    if a < b && e == n {
        let number = slice_of(&r, a, c);
        let units = slice_of(&r, c, d);
        let amount = read_number_or_one(&number);
        let units = if units.len() == 0 { default_unit_chars() } else { units };
        return (amount, text_of(&units));
    }
    let e1 = scan_spaces_back(&r, n);
    let s1 = scan_word_back(&r, e1);
    let e2 = scan_spaces_back(&r, s1);
    let s2 = scan_word_back(&r, e2);
    if e1 == 0 {
        (Decimal::one(), text_of(&default_unit_chars()))
    } else if e2 == 0 {
        let word = slice_of(&r, s1, e1);
        (read_number_or_one(&word), text_of(&default_unit_chars()))
    } else {
        let word = slice_of(&r, s2, e2);
        let units = slice_of(&r, s1, e1);
        (read_number_or_one(&word), text_of(&units))
    }
}

} // verus!
