//! Fixed-point numbers as decimal text: the integer part, a point, and
//! exactly eighteen fractional digits.

use vstd::prelude::*;
use crate::decimal::{wad, Decimal, WAD};
use crate::rate::Rate;
use crate::wide::U192;

verus! {

/// `String::push` appends the given character to the end of the string.
pub assume_specification[ String::push ](s: &mut String, ch: char)
    ensures
        final(s)@ == old(s)@.push(ch),
;

/// The character of a decimal digit.
pub open spec fn digit_char(d: nat) -> char {
    if d == 0 {
        '0'
    } else if d == 1 {
        '1'
    } else if d == 2 {
        '2'
    } else if d == 3 {
        '3'
    } else if d == 4 {
        '4'
    } else if d == 5 {
        '5'
    } else if d == 6 {
        '6'
    } else if d == 7 {
        '7'
    } else if d == 8 {
        '8'
    } else {
        '9'
    }
}

/// The decimal digits of `n`, most significant first, without leading zeros.
pub open spec fn digits(n: nat) -> Seq<char>
    decreases n,
{
    if n < 10 {
        seq![digit_char(n)]
    } else {
        digits(n / 10).push(digit_char(n % 10))
    }
}

/// The last `width` decimal digits of `n`, most significant first, with
/// leading zeros.
pub open spec fn fixed_digits(n: nat, width: nat) -> Seq<char>
    decreases width,
{
    if width == 0 {
        Seq::empty()
    } else {
        fixed_digits(n / 10, (width - 1) as nat).push(digit_char(n % 10))
    }
}

/// The text of the fixed-point number with the scaled value `scaled`.
pub open spec fn fixed_point_text(scaled: nat) -> Seq<char> {
    digits(scaled / wad()) + seq!['.'] + fixed_digits(scaled % wad(), 18)
}

/// The digits of `n` that stand before its last one.
spec fn leading(n: nat) -> Seq<char> {
    if n == 0 {
        Seq::empty()
    } else {
        digits(n)
    }
}

/// The characters of digits that were collected least significant first.
spec fn reversed_chars(collected: Seq<u8>) -> Seq<char> {
    Seq::new(collected.len(), |i: int| digit_char(collected[collected.len() - 1 - i] as nat))
}

/// One more collected digit stands before those collected earlier.
proof fn lemma_reversed_push(collected: Seq<u8>, d: u8)
    ensures
        reversed_chars(collected.push(d)) == seq![digit_char(d as nat)] + reversed_chars(collected),
{
    assert(reversed_chars(collected.push(d)) =~= seq![digit_char(d as nat)] + reversed_chars(
        collected,
    ));
}

/// The character of the digit `d`.
fn digit_to_char(d: u8) -> (c: char)
    requires
        d < 10,
    ensures
        c == digit_char(d as nat),
{
    match d {
        0 => '0',
        1 => '1',
        2 => '2',
        3 => '3',
        4 => '4',
        5 => '5',
        6 => '6',
        7 => '7',
        8 => '8',
        _ => '9',
    }
}

/// The digits of `value`, least significant first.
fn collect_digits(value: U192) -> (collected: Vec<u8>)
    ensures
        reversed_chars(collected@) == digits(value@),
        forall|i: int| 0 <= i < collected.len() ==> collected[i] < 10,
{
    let mut collected: Vec<u8> = Vec::new();
    let (first_rest, first_digit) = value.div_rem_u64(10);
    proof {
        lemma_reversed_push(collected@, first_digit as u8);
        assert(digits(value@) =~= leading(first_rest@) + reversed_chars(
            collected@.push(first_digit as u8),
        ));
    }
    collected.push(first_digit as u8);
    let mut rest = first_rest;
    while !rest.is_zero()
        invariant
            digits(value@) == leading(rest@) + reversed_chars(collected@),
            forall|i: int| 0 <= i < collected.len() ==> collected[i] < 10,
        decreases rest@,
    {
        let (next, digit) = rest.div_rem_u64(10);
        proof {
            lemma_reversed_push(collected@, digit as u8);
            assert(leading(rest@) =~= leading(next@).push(digit_char(digit as nat)));
            assert(digits(value@) =~= leading(next@) + reversed_chars(collected@.push(digit as u8)));
        }
        collected.push(digit as u8);
        rest = next;
    }
    assert(digits(value@) =~= reversed_chars(collected@));
    collected
}

/// The last `width` digits of `value`, least significant first.
fn collect_fixed_digits(value: u64, width: usize) -> (collected: Vec<u8>)
    ensures
        reversed_chars(collected@) == fixed_digits(value as nat, width as nat),
        forall|i: int| 0 <= i < collected.len() ==> collected[i] < 10,
{
    let mut collected: Vec<u8> = Vec::new();
    let mut rest: u64 = value;
    let mut i: usize = 0;
    assert(fixed_digits(value as nat, width as nat) =~= fixed_digits(rest as nat, width as nat)
        + reversed_chars(collected@));
    while i < width
        invariant
            i <= width,
            fixed_digits(value as nat, width as nat) == fixed_digits(
                rest as nat,
                (width - i) as nat,
            ) + reversed_chars(collected@),
            forall|k: int| 0 <= k < collected.len() ==> collected[k] < 10,
        decreases width - i,
    {
        let digit: u8 = (rest % 10) as u8;
        proof {
            lemma_reversed_push(collected@, digit);
            assert(fixed_digits(value as nat, width as nat) =~= fixed_digits(
                (rest / 10) as nat,
                (width - i - 1) as nat,
            ) + reversed_chars(collected@.push(digit)));
        }
        collected.push(digit);
        rest = rest / 10;
        i += 1;
    }
    assert(fixed_digits(value as nat, width as nat) =~= reversed_chars(collected@));
    collected
}

/// Appends the characters of digits that were collected least significant first.
fn push_reversed(out: &mut String, collected: &Vec<u8>)
    requires
        forall|i: int| 0 <= i < collected.len() ==> collected[i] < 10,
    ensures
        final(out)@ == old(out)@ + reversed_chars(collected@),
{
    let mut left: usize = collected.len();
    assert(out@ =~= old(out)@ + reversed_chars(collected@).take(0));
    while left > 0
        invariant
            left <= collected.len(),
            forall|i: int| 0 <= i < collected.len() ==> collected[i] < 10,
            out@ == old(out)@ + reversed_chars(collected@).take(collected.len() - left),
        decreases left,
    {
        left -= 1;
        let c = digit_to_char(collected[left]);
        proof {
            assert(old(out)@ + reversed_chars(collected@).take(collected.len() - left) =~= (old(out)@ + reversed_chars(collected@).take(collected.len() - left - 1)).push(c));
        }
        out.push(c);
    }
    assert(reversed_chars(collected@).take(collected.len() as int) =~= reversed_chars(
        collected@,
    ));
}

impl Decimal {
    /// The number as decimal text with eighteen fractional digits.
    pub fn to_string(&self) -> (r: String)
        ensures
            r@ == fixed_point_text(self@),
    {
        let (whole, fraction) = self.0.div_rem_u64(WAD);
        let whole_digits = collect_digits(whole);
        let fraction_digits = collect_fixed_digits(fraction, 18);
        let mut out = String::new();
        assert(out@ =~= Seq::<char>::empty());
        push_reversed(&mut out, &whole_digits);
        out.push('.');
        push_reversed(&mut out, &fraction_digits);
        assert(out@ =~= fixed_point_text(self@));
        out
    }
}

impl Rate {
    /// The rate as decimal text with eighteen fractional digits.
    pub fn to_string(&self) -> (r: String)
        ensures
            r@ == fixed_point_text(self@),
    {
        Decimal::from_rate(*self).to_string()
    }
}

} // verus!
