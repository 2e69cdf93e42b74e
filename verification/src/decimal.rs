//! Decimal numbers kept exactly, as the numeral that was written.

use vstd::prelude::*;
use vstd::string::*;
use crate::grammar::{
    find_number_end, find_run_end, lemma_run_end, lemma_run_end_is, number_end, run_end, Run,
    NEWLINE, POINT,
};
use crate::text::{append_bytes, lemma_text_of_ascii_bytes, text_of};
use crate::utils::{is_digit, spec_is_digit};

verus! {

pub const ZERO: char = '0';

/// A numeral: digits, then optionally a decimal point and more digits. It is
/// a text that starts with a digit and that the number rule consumes whole.
pub open spec fn is_numeral(text: Seq<char>) -> bool {
    text.len() > 0 && spec_is_digit(text[0]) && number_end(text, 0) == text.len()
}

/// The digits of a whole part without the zeros in front that add nothing;
/// one digit always stays.
pub open spec fn without_leading_zeros(digits: Seq<char>) -> Seq<char>
    decreases digits.len(),
{
    if digits.len() > 1 && digits[0] == ZERO {
        without_leading_zeros(digits.drop_first())
    } else {
        digits
    }
}

/// The digits of a fraction without the zeros at the end that add nothing.
pub open spec fn without_trailing_zeros(digits: Seq<char>) -> Seq<char>
    decreases digits.len(),
{
    if digits.len() > 0 && digits.last() == ZERO {
        without_trailing_zeros(digits.drop_last())
    } else {
        digits
    }
}

/// The digits of the numeral in front of its decimal point.
pub open spec fn whole_part(numeral: Seq<char>) -> Seq<char> {
    numeral.subrange(0, run_end(numeral, 0, Run::Digits))
}

/// The digits of the numeral behind its decimal point; none where it has no
/// point.
pub open spec fn fraction_part(numeral: Seq<char>) -> Seq<char> {
    let whole = run_end(numeral, 0, Run::Digits);
    if whole < numeral.len() {
        numeral.subrange(whole + 1, numeral.len() as int)
    } else {
        Seq::empty()
    }
}

/// Whether the text holds decimal digits only.
pub open spec fn all_digits(text: Seq<char>) -> bool {
    forall|i: int| 0 <= i < text.len() ==> spec_is_digit(#[trigger] text[i])
}

/// The numeral with the given digits in front of the decimal point and
/// behind it; without digits behind it, it has no point.
pub open spec fn numeral_of(whole: Seq<char>, fraction: Seq<char>) -> Seq<char> {
    if fraction.len() > 0 {
        whole.push(POINT) + fraction
    } else {
        whole
    }
}

/// The shortest numeral of the same value: no needless zeros on either side,
/// and no decimal point where nothing is left behind it.
pub open spec fn plain_form(numeral: Seq<char>) -> Seq<char> {
    numeral_of(
        without_leading_zeros(whole_part(numeral)),
        without_trailing_zeros(fraction_part(numeral)),
    )
}

/// The number that decimal digits write.
pub open spec fn digits_value(digits: Seq<char>) -> nat
    decreases digits.len(),
{
    if digits.len() == 0 {
        0
    } else {
        digits_value(digits.drop_last()) * 10 + (digits.last() as nat - ZERO as nat) as nat
    }
}

/// Ten to the power `exponent`.
pub open spec fn pow10(exponent: nat) -> nat
    decreases exponent,
{
    if exponent == 0 {
        1
    } else {
        10 * pow10((exponent - 1) as nat)
    }
}

/// The value of the numeral, multiplied by ten to the power `scale`. With a
/// scale of at least the number of digits behind the point, that is a whole
/// number.
pub open spec fn scaled_value(numeral: Seq<char>, scale: nat) -> nat
    recommends
        fraction_part(numeral).len() <= scale,
{
    digits_value(whole_part(numeral)) * pow10(scale) + digits_value(fraction_part(numeral))
        * pow10((scale - fraction_part(numeral).len()) as nat)
}

/// A numeral holds digits and at most one decimal point, all of them ASCII.
pub proof fn lemma_numeral_is_ascii(text: Seq<char>)
    requires
        is_numeral(text),
    ensures
        vstd::utf8::is_ascii_chars(text),
{
    let whole = run_end(text, 0, Run::Digits);
    lemma_run_end(text, 0, Run::Digits);
    if whole < text.len() {
        lemma_run_end(text, whole + 1, Run::Digits);
    }
}

/// A numeral falls into its digits in front of the point and those behind
/// it. It has digits in front; it has digits behind exactly if it has a
/// point.
pub proof fn lemma_numeral_parts(numeral: Seq<char>)
    requires
        is_numeral(numeral),
    ensures
        whole_part(numeral).len() > 0,
        all_digits(whole_part(numeral)),
        all_digits(fraction_part(numeral)),
        numeral == numeral_of(whole_part(numeral), fraction_part(numeral)),
{
    let whole = run_end(numeral, 0, Run::Digits);
    lemma_run_end(numeral, 0, Run::Digits);
    if whole < numeral.len() {
        lemma_run_end(numeral, whole + 1, Run::Digits);
    }
}

/// Digits in front of a point and digits behind it make a numeral that
/// falls into just these parts.
pub proof fn lemma_numeral_of(whole: Seq<char>, fraction: Seq<char>)
    requires
        whole.len() > 0,
        all_digits(whole),
        all_digits(fraction),
    ensures
        is_numeral(numeral_of(whole, fraction)),
        whole_part(numeral_of(whole, fraction)) == whole,
        fraction_part(numeral_of(whole, fraction)) == fraction,
{
    let numeral = numeral_of(whole, fraction);
    let point = whole.len() as int;
    lemma_run_end_is(numeral, 0, Run::Digits, point);
    if fraction.len() > 0 {
        lemma_run_end_is(numeral, point + 1, Run::Digits, numeral.len() as int);
    }
}

/// A zero in front of digits adds nothing to the number they write.
proof fn lemma_leading_zero_value(digits: Seq<char>)
    ensures
        digits_value(seq![ZERO] + digits) == digits_value(digits),
    decreases digits.len(),
{
    let longer = seq![ZERO] + digits;
    if digits.len() == 0 {
        assert(digits_value(longer.drop_last()) == 0);
    } else {
        assert(longer.drop_last() =~= seq![ZERO] + digits.drop_last());
        lemma_leading_zero_value(digits.drop_last());
    }
}

/// Leaving out the needless zeros in front keeps digits and the number
/// they write, and leaves no such zero behind.
pub proof fn lemma_without_leading_zeros(digits: Seq<char>)
    requires
        digits.len() > 0,
        all_digits(digits),
    ensures
        without_leading_zeros(digits).len() > 0,
        all_digits(without_leading_zeros(digits)),
        without_leading_zeros(without_leading_zeros(digits)) == without_leading_zeros(digits),
        digits_value(without_leading_zeros(digits)) == digits_value(digits),
    decreases digits.len(),
{
    if digits.len() > 1 && digits[0] == ZERO {
        let rest = digits.drop_first();
        lemma_without_leading_zeros(rest);
        lemma_leading_zero_value(rest);
        assert(digits =~= seq![ZERO] + rest);
    }
}

/// Leaving out the needless zeros at the end keeps digits, and leaves no
/// such zero behind. Every zero left out divides the number that the digits
/// write by ten.
pub proof fn lemma_without_trailing_zeros(digits: Seq<char>, scale: nat)
    requires
        all_digits(digits),
        digits.len() <= scale,
    ensures
        without_trailing_zeros(digits).len() <= digits.len(),
        all_digits(without_trailing_zeros(digits)),
        without_trailing_zeros(without_trailing_zeros(digits)) == without_trailing_zeros(digits),
        digits_value(without_trailing_zeros(digits)) * pow10(
            (scale - without_trailing_zeros(digits).len()) as nat,
        ) == digits_value(digits) * pow10((scale - digits.len()) as nat),
    decreases digits.len(),
{
    if digits.len() > 0 && digits.last() == ZERO {
        let rest = digits.drop_last();
        lemma_without_trailing_zeros(rest, scale);
        let value = digits_value(rest);
        let unit = pow10((scale - digits.len()) as nat);
        assert(value * (10 * unit) == (value * 10) * unit) by (nonlinear_arith);
    }
}

/// The plain form of a numeral is a numeral that writes the same number,
/// and it is its own plain form.
pub proof fn lemma_plain_form(numeral: Seq<char>, scale: nat)
    requires
        is_numeral(numeral),
        fraction_part(numeral).len() <= scale,
    ensures
        is_numeral(plain_form(numeral)),
        plain_form(plain_form(numeral)) == plain_form(numeral),
        fraction_part(plain_form(numeral)).len() <= scale,
        scaled_value(plain_form(numeral), scale) == scaled_value(numeral, scale),
{
    let whole = without_leading_zeros(whole_part(numeral));
    let fraction = without_trailing_zeros(fraction_part(numeral));
    lemma_numeral_parts(numeral);
    lemma_without_leading_zeros(whole_part(numeral));
    lemma_without_trailing_zeros(fraction_part(numeral), scale);
    lemma_numeral_of(whole, fraction);
}

/// A number is a numeral: it starts with a digit, holds no line break, and
/// the number rule consumes it whole when it stands alone.
pub proof fn lemma_number_span(text: Seq<char>, pos: int)
    requires
        0 <= pos < text.len(),
        spec_is_digit(text[pos]),
    ensures
        pos < number_end(text, pos) <= text.len(),
        is_numeral(text.subrange(pos, number_end(text, pos))),
        forall|i: int| pos <= i < number_end(text, pos) ==> #[trigger] text[i] != NEWLINE,
{
    let end = number_end(text, pos);
    let whole = run_end(text, pos, Run::Digits);
    lemma_run_end(text, pos, Run::Digits);
    if whole < text.len() {
        lemma_run_end(text, whole + 1, Run::Digits);
    }
    let numeral = text.subrange(pos, end);
    lemma_run_end_is(numeral, 0, Run::Digits, whole - pos);
    if end != whole {
        lemma_run_end_is(numeral, whole - pos + 1, Run::Digits, end - pos);
    }
}

/// Finds where the digits from `from` up to `to` start once the needless
/// zeros in front are left out.
fn skip_leading_zeros(source: &[u8], from: usize, to: usize) -> (start: usize)
    requires
        from <= to <= source@.len(),
    ensures
        from <= start <= to,
        without_leading_zeros(text_of(source@).subrange(from as int, to as int)) == text_of(
            source@,
        ).subrange(start as int, to as int),
{
    let mut start: usize = from;
    while to - start > 1 && source[start] as char == ZERO
        invariant
            from <= start <= to <= source@.len(),
            without_leading_zeros(text_of(source@).subrange(from as int, to as int))
                == without_leading_zeros(text_of(source@).subrange(start as int, to as int)),
        decreases to - start,
    {
        assert(text_of(source@).subrange(start as int, to as int).drop_first() =~= text_of(
            source@,
        ).subrange(start + 1, to as int));
        start += 1;
    }
    start
}

/// Finds where the digits from `from` up to `to` end once the needless zeros
/// at the end are left out.
fn skip_trailing_zeros(source: &[u8], from: usize, to: usize) -> (end: usize)
    requires
        from <= to <= source@.len(),
    ensures
        from <= end <= to,
        without_trailing_zeros(text_of(source@).subrange(from as int, to as int)) == text_of(
            source@,
        ).subrange(from as int, end as int),
{
    let mut end: usize = to;
    while end > from && source[end - 1] as char == ZERO
        invariant
            from <= end <= to <= source@.len(),
            without_trailing_zeros(text_of(source@).subrange(from as int, to as int))
                == without_trailing_zeros(text_of(source@).subrange(from as int, end as int)),
        decreases end - from,
    {
        assert(text_of(source@).subrange(from as int, end as int).drop_last() =~= text_of(
            source@,
        ).subrange(from as int, end - 1));
        end -= 1;
    }
    end
}

/// A non-negative decimal number, held as its numeral.
#[derive(Debug, PartialEq, Eq)]
pub struct Decimal {
    text: String,
}

impl View for Decimal {
    type V = Seq<char>;

    /// The numeral as it was written.
    closed spec fn view(&self) -> Seq<char> {
        self.text@
    }
}

impl Clone for Decimal {
    fn clone(&self) -> (d: Self)
        ensures
            d@ == self@,
    {
        proof {
            use_type_invariant(self);
        }
        Decimal { text: self.text.clone() }
    }
}

impl Decimal {
    #[verifier::type_invariant]
    spec fn well_formed(&self) -> bool {
        is_numeral(self.text@)
    }

    /// Reads a numeral; anything else is refused.
    pub fn parse(text: &str) -> (r: Option<Decimal>)
        ensures
            r is Some <==> is_numeral(text@),
            r matches Some(d) ==> d@ == text@,
    {
        broadcast use is_ascii_spec_bytes;

        if !text.is_ascii() {
            proof {
                if is_numeral(text@) {
                    lemma_numeral_is_ascii(text@);
                }
            }
            return None;
        }
        let bytes = text.as_bytes();
        proof {
            lemma_text_of_ascii_bytes(text@);
        }
        if bytes.len() == 0 || !is_digit(bytes[0] as char) {
            return None;
        }
        if find_number_end(bytes, 0) != bytes.len() {
            return None;
        }
        Some(Decimal { text: text.to_owned() })
    }

    /// Takes the numeral that the source holds from `from` up to `to`.
    pub fn from_source(source: &[u8], from: usize, to: usize) -> (d: Decimal)
        requires
            from <= to <= source@.len(),
            is_numeral(text_of(source@).subrange(from as int, to as int)),
        ensures
            d@ == text_of(source@).subrange(from as int, to as int),
    {
        let mut text = String::new();
        append_bytes(&mut text, source, from, to);
        Decimal { text }
    }

    /// The numeral as it was written.
    pub fn as_str(&self) -> (text: &str)
        ensures
            text@ == self@,
            is_numeral(text@),
    {
        proof {
            use_type_invariant(self);
        }
        self.text.as_str()
    }

    /// The number in its plain form: `123` for `123.0`, `0.5` for `00.50`.
    pub fn to_text(&self) -> (text: String)
        ensures
            text@ == plain_form(self@),
    {
        broadcast use is_ascii_spec_bytes;

        proof {
            use_type_invariant(self);
            lemma_numeral_is_ascii(self@);
            lemma_text_of_ascii_bytes(self@);
        }
        let numeral = self.text.as_str();
        assert(is_ascii(numeral));
        let bytes = numeral.as_bytes();
        let whole = find_run_end(bytes, 0, Run::Digits);
        let start = skip_leading_zeros(bytes, 0, whole);
        let mut text = String::new();
        append_bytes(&mut text, bytes, start, whole);
        if whole < bytes.len() {
            let end = skip_trailing_zeros(bytes, whole + 1, bytes.len());
            if end > whole + 1 {
                text.push(POINT);
                append_bytes(&mut text, bytes, whole + 1, end);
            }
        }
        text
    }
}

} // verus!
