//! How the numbers of a counter are shown in a report.

use vstd::prelude::*;
use vstd::string::*;
use crate::counter::Percentage;
use crate::exact::{round_div, rounded_quotient, rounded_sqrt, rounded_sqrt_of_thousandths};
use crate::text::{decimal, with_places, pad_left, push_decimal, push_with_places, push_padded};

verus! {

/// The distance of a number from zero.
pub open spec fn magnitude(v: int) -> nat {
    if v < 0 {
        (-v) as nat
    } else {
        v as nat
    }
}

/// A minus sign for a number below zero, nothing for others.
pub open spec fn minus(v: int) -> Seq<char> {
    if v < 0 {
        seq!['-']
    } else {
        Seq::empty()
    }
}

/// A count of thousandths as a decimal number, with as many decimal places
/// as it needs and no more: `1000` thousandths are `1`, `12500` are `12.5`.
pub open spec fn shortest(n: nat) -> Seq<char> {
    if n % 1000 == 0 {
        decimal(n / 1000)
    } else if n % 100 == 0 {
        with_places(n / 100, 1)
    } else if n % 10 == 0 {
        with_places(n / 10, 2)
    } else {
        with_places(n, 3)
    }
}

/// A mean, given in thousandths, in its shortest form.
pub open spec fn value_text(v: int) -> Seq<char> {
    minus(v) + shortest(magnitude(v))
}

/// A mean, given in thousandths, with three decimal places.
pub open spec fn value_text_fixed(v: int) -> Seq<char> {
    minus(v) + with_places(magnitude(v), 3)
}

/// The standard deviation that belongs to a variance given in thousandths,
/// rounded to a whole number.
pub open spec fn deviation_text(variance: nat) -> Seq<char> {
    decimal(rounded_sqrt(variance, 1000))
}

/// A change in hundredths of a percent, rounded to the nearest, a half away
/// from zero.
pub open spec fn hundredths(p: Percentage) -> nat {
    round_div(magnitude(p.numerator as int) * 100, magnitude(p.denominator as int))
}

/// A change in percent with its sign and two decimal places, at least six
/// characters wide: `+10.00`, ` -0.25`.
pub open spec fn percent_text(p: Percentage) -> Seq<char> {
    pad_left((if p.sign() < 0 { seq!['-'] } else { seq!['+'] }) + with_places(hundredths(p), 2), 6)
}

/// The change from `before` to `after` in percent of `before`, with one
/// decimal place, led by `+` where the mean has grown and by `-` where it
/// has not.
pub open spec fn delta_text(before: int, after: int) -> Seq<char>
    recommends
        before != 0,
{
    (if after > before { seq!['+'] } else { seq!['-'] }) + with_places(
        round_div(magnitude(after - before) * 1000, magnitude(before)),
        1,
    ) + seq!['%']
}

/// The distance of a number from zero.
pub(crate) fn magnitude_of(v: i128) -> (r: u128)
    requires
        v > i128::MIN,
    ensures
        r == magnitude(v as int),
{
    if v < 0 {
        (-v) as u128
    } else {
        v as u128
    }
}

/// Appends a minus sign for a number below zero.
fn push_minus(out: &mut String, v: i64)
    ensures
        final(out)@ == old(out)@ + minus(v as int),
{
    if v < 0 {
        out.append("-");
        proof {
            reveal_strlit("-");
            assert(out@ =~= old(out)@ + minus(v as int));
        }
    } else {
        assert(out@ =~= old(out)@ + minus(v as int));
    }
}

/// Appends a mean in its shortest form.
pub fn push_value(out: &mut String, v: i64)
    ensures
        final(out)@ == old(out)@ + value_text(v as int),
{
    let n: u128 = magnitude_of(v as i128);
    push_minus(out, v);
    if n % 1000 == 0 {
        push_decimal(out, n / 1000);
    } else if n % 100 == 0 {
        push_with_places(out, n / 100, 1);
    } else if n % 10 == 0 {
        push_with_places(out, n / 10, 2);
    } else {
        push_with_places(out, n, 3);
    }
    assert(out@ =~= old(out)@ + value_text(v as int));
}

/// Appends a mean with three decimal places.
pub fn push_value_fixed(out: &mut String, v: i64)
    ensures
        final(out)@ == old(out)@ + value_text_fixed(v as int),
{
    let n: u128 = magnitude_of(v as i128);
    push_minus(out, v);
    push_with_places(out, n, 3);
    assert(out@ =~= old(out)@ + value_text_fixed(v as int));
}

/// Appends the rounded standard deviation that belongs to a variance.
pub fn push_deviation(out: &mut String, variance: u64)
    ensures
        final(out)@ == old(out)@ + deviation_text(variance as nat),
{
    let root: u64 = rounded_sqrt_of_thousandths(variance);
    push_decimal(out, root as u128);
}

/// Appends a change in percent with its sign and two decimal places,
/// padded to six characters.
pub fn push_percent(out: &mut String, p: &Percentage)
    requires
        p.wf(),
    ensures
        final(out)@ == old(out)@ + percent_text(*p),
{
    let n: u128 = magnitude_of(p.numerator);
    let d: u128 = magnitude_of(p.denominator as i128);
    let h: u128 = rounded_quotient(n * 100, d);
    let mut cell = String::new();
    if p.is_negative() {
        cell.append("-");
    } else {
        cell.append("+");
    }
    proof {
        reveal_strlit("-");
        reveal_strlit("+");
        assert(cell@ =~= (if p.sign() < 0 { seq!['-'] } else { seq!['+'] }));
    }
    push_with_places(&mut cell, h, 2);
    push_padded(out, cell.as_str(), 6);
}

/// Appends the change from `before` to `after` in percent of `before`, with
/// one decimal place.
pub fn push_delta(out: &mut String, before: i64, after: i64)
    requires
        before != 0,
    ensures
        final(out)@ == old(out)@ + delta_text(before as int, after as int),
{
    let n: u128 = magnitude_of(after as i128 - before as i128);
    let d: u128 = magnitude_of(before as i128);
    let tenths: u128 = rounded_quotient(n * 1000, d);
    if after > before {
        out.append("+");
    } else {
        out.append("-");
    }
    push_with_places(out, tenths, 1);
    out.append("%");
    proof {
        reveal_strlit("-");
        reveal_strlit("+");
        reveal_strlit("%");
        assert(out@ =~= old(out)@ + delta_text(before as int, after as int));
    }
}

/// A count, shown in seven characters.
#[derive(Debug, Clone, Copy, PartialEq, Eq)]
pub struct HumanReadable(pub u64);

impl HumanReadable {
    /// The count as text: below a thousand as it is; from a thousand on in
    /// thousands, millions or billions, with two decimal places, a half
    /// rounded up, and the letter `K`, `M` or `G`. The number is set to the
    /// right, so that the text has seven characters unless the number needs
    /// more.
    pub open spec fn text(self) -> Seq<char> {
        let n = self.0 as nat;
        if n >= 1_000_000_000 {
            pad_left(with_places(round_div(n * 100, 1_000_000_000), 2), 6) + "G"@
        } else if n >= 1_000_000 {
            pad_left(with_places(round_div(n * 100, 1_000_000), 2), 6) + "M"@
        } else if n >= 1_000 {
            pad_left(with_places(round_div(n * 100, 1_000), 2), 6) + "K"@
        } else {
            pad_left(decimal(n), 7)
        }
    }

    /// Writes the count out.
    pub fn to_text(&self) -> (r: String)
        ensures
            r@ == self.text(),
    {
        let n: u128 = self.0 as u128;
        let mut number = String::new();
        let mut out = String::new();
        if n >= 1_000_000_000 {
            push_with_places(&mut number, rounded_quotient(n * 100, 1_000_000_000), 2);
            push_padded(&mut out, number.as_str(), 6);
            out.append("G");
        } else if n >= 1_000_000 {
            push_with_places(&mut number, rounded_quotient(n * 100, 1_000_000), 2);
            push_padded(&mut out, number.as_str(), 6);
            out.append("M");
        } else if n >= 1_000 {
            push_with_places(&mut number, rounded_quotient(n * 100, 1_000), 2);
            push_padded(&mut out, number.as_str(), 6);
            out.append("K");
        } else {
            push_decimal(&mut number, n);
            push_padded(&mut out, number.as_str(), 7);
        }
        assert(out@ =~= self.text());
        out
    }
}

} // verus!
