//! Colours as the pixel map stores them, and their text.
//!
//! A channel is an intensity scaled so that 255 is full: the integer part of
//! 255 times the intensity. A channel may exceed 255; the text shows it as
//! 255.

use vstd::prelude::*;

verus! {

/// The highest level that the pixel map can show.
pub const MAX_LEVEL: usize = 255;

/// `String::push` of the standard library appends one character to the end
/// of the string.
pub assume_specification[ String::push ](s: &mut String, c: char)
    ensures
        final(s)@ == old(s)@.push(c),
;

/// The character of a decimal digit.
pub open spec fn digit_spec(d: int) -> char {
    if d == 0 {
        '0'
    } else if d == 1 {
        '1'
    } else if d == 2 {
        '2'
    } else if d == 3 {
        '3'
    } else if d == 4 {
        '4'
    } else if d == 5 {
        '5'
    } else if d == 6 {
        '6'
    } else if d == 7 {
        '7'
    } else if d == 8 {
        '8'
    } else {
        '9'
    }
}

/// A number in decimal, without sign and without leading zeros.
pub open spec fn decimal(n: nat) -> Seq<char>
    decreases n,
{
    if n < 10 {
        seq![digit_spec(n as int)]
    } else {
        decimal(n / 10).push(digit_spec((n % 10) as int))
    }
}

/// The number that a decimal digit stands for; 0 for any other character.
pub open spec fn digit_value(c: char) -> nat {
    if c == '1' {
        1
    } else if c == '2' {
        2
    } else if c == '3' {
        3
    } else if c == '4' {
        4
    } else if c == '5' {
        5
    } else if c == '6' {
        6
    } else if c == '7' {
        7
    } else if c == '8' {
        8
    } else if c == '9' {
        9
    } else {
        0
    }
}

/// The number that a row of decimal digits stands for.
pub open spec fn decimal_value(digits: Seq<char>) -> nat
    decreases digits.len(),
{
    if digits.len() == 0 {
        0
    } else {
        decimal_value(digits.drop_last()) * 10 + digit_value(digits.last())
    }
}

/// The decimal text of a number reads back as the number, is not empty,
/// and begins with a zero only where the number is zero.
pub proof fn lemma_decimal_reads_back(n: nat)
    ensures
        decimal_value(decimal(n)) == n,
        decimal(n).len() >= 1,
        n > 0 ==> decimal(n)[0] != '0',
    decreases n,
{
    if n < 10 {
        let text = decimal(n);
        assert(text.len() == 1);
        assert(text.drop_last().len() == 0);
        assert(text.last() == digit_spec(n as int));
        assert(decimal_value(text) == decimal_value(text.drop_last()) * 10 + digit_value(
            text.last(),
        ));
    } else {
        lemma_decimal_reads_back(n / 10);
        let head = decimal(n / 10);
        let text = decimal(n);
        assert(text == head.push(digit_spec((n % 10) as int)));
        assert(text.drop_last() =~= head);
        assert(text.last() == digit_spec((n % 10) as int));
        assert(text[0] == head[0]);
    }
}

/// A channel as the pixel map shows it: `MAX_LEVEL` at most.
pub open spec fn level(scaled: usize) -> usize {
    if scaled > MAX_LEVEL {
        MAX_LEVEL
    } else {
        scaled
    }
}

/// Limits a scaled channel to what the pixel map can show.
pub fn f_pixel(scaled: usize) -> (shown: usize)
    ensures
        shown == level(scaled),
{
    if scaled > MAX_LEVEL {
        MAX_LEVEL
    } else {
        scaled
    }
}

fn digit(d: usize) -> (c: char)
    requires
        d < 10,
    ensures
        c == digit_spec(d as int),
{
    if d == 0 {
        '0'
    } else if d == 1 {
        '1'
    } else if d == 2 {
        '2'
    } else if d == 3 {
        '3'
    } else if d == 4 {
        '4'
    } else if d == 5 {
        '5'
    } else if d == 6 {
        '6'
    } else if d == 7 {
        '7'
    } else if d == 8 {
        '8'
    } else {
        '9'
    }
}

/// Appends `n` in decimal to `out`.
pub fn push_decimal(out: &mut String, n: usize)
    ensures
        final(out)@ == old(out)@ + decimal(n as nat),
    decreases n,
{
    if n < 10 {
        out.push(digit(n));
        assert(old(out)@.push(digit_spec(n as int)) =~= old(out)@ + decimal(n as nat));
    } else {
        push_decimal(out, n / 10);
        out.push(digit(n % 10));
        assert((old(out)@ + decimal((n / 10) as nat)).push(digit_spec((n % 10) as int)) =~= old(
            out,
        )@ + decimal(n as nat));
    }
}

#[derive(Debug, Clone, Copy, PartialEq, Eq, Structural)]
pub struct Color {
    pub r: usize,
    pub g: usize,
    pub b: usize,
}

impl Color {
    /// The text of one pixel: the three levels in decimal, a space between
    /// them and a line feed behind them.
    pub open spec fn to_str_spec(&self) -> Seq<char> {
        decimal(level(self.r) as nat) + seq![' '] + decimal(level(self.g) as nat) + seq![' ']
            + decimal(level(self.b) as nat) + seq!['\n']
    }

    pub fn new(r: usize, g: usize, b: usize) -> (c: Color)
        ensures
            c == (Color { r, g, b }),
    {
        Color { r, g, b }
    }

    pub fn black() -> (c: Color)
        ensures
            c == (Color { r: 0, g: 0, b: 0 }),
    {
        Color { r: 0, g: 0, b: 0 }
    }

    pub fn red() -> (c: Color)
        ensures
            c == (Color { r: 255, g: 0, b: 0 }),
    {
        Color { r: 255, g: 0, b: 0 }
    }

    /// Appends the text of the pixel to `out`.
    pub fn push_to(&self, out: &mut String)
        ensures
            final(out)@ == old(out)@ + self.to_str_spec(),
    {
        push_decimal(out, f_pixel(self.r));
        out.push(' ');
        push_decimal(out, f_pixel(self.g));
        out.push(' ');
        push_decimal(out, f_pixel(self.b));
        out.push('\n');
        assert(out@ =~= old(out)@ + self.to_str_spec());
    }

    pub fn to_str(&self) -> (s: String)
        ensures
            s@ == self.to_str_spec(),
    {
        let mut s = String::new();
        self.push_to(&mut s);
        assert(Seq::<char>::empty() + self.to_str_spec() =~= self.to_str_spec());
        s
    }
}

} // verus!
