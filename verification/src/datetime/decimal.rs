//! Natural numbers written out in decimal digits.

use vstd::prelude::*;

verus! {

/// The character of a single decimal digit.
pub open spec fn digit(d: int) -> char
    recommends
        0 <= d <= 9,
{
    if d == 0 {
        '0'
    } else if d == 1 {
        '1'
    } else if d == 2 {
        '2'
    } else if d == 3 {
        '3'
    } else if d == 4 {
        '4'
    } else if d == 5 {
        '5'
    } else if d == 6 {
        '6'
    } else if d == 7 {
        '7'
    } else if d == 8 {
        '8'
    } else {
        '9'
    }
}

/// A number in decimal digits, the most significant first and without
/// leading zeros: one digit for the numbers below ten.
pub open spec fn decimal(n: nat) -> Seq<char>
    decreases n,
{
    if n < 10 {
        seq![digit(n as int)]
    } else {
        decimal(n / 10).push(digit((n % 10) as int))
    }
}

/// `count` zeros in a row.
pub open spec fn zeros(count: nat) -> Seq<char> {
    Seq::new(count, |i: int| '0')
}

/// A number in decimal digits, with zeros put before it until it is `width`
/// characters long. A number that is longer by itself is left as it is.
pub open spec fn zero_padded(n: nat, width: nat) -> Seq<char> {
    let digits = decimal(n);
    if digits.len() >= width {
        digits
    } else {
        zeros((width - digits.len()) as nat) + digits
    }
}

/// The width that is left for what stands before the last digit.
pub open spec fn width_before_last(width: nat) -> nat {
    if width > 0 {
        (width - 1) as nat
    } else {
        0
    }
}

/// A padded number ends in its last digit; before it stand the zeros alone
/// where there is no other digit, and else the tenth part of the number,
/// padded to one character less.
pub proof fn lemma_zero_padded_unfolds(n: nat, width: nat)
    ensures
        n < 10 ==> zero_padded(n, width) == zeros(width_before_last(width)).push(digit(n as int)),
        n >= 10 ==> zero_padded(n, width) == zero_padded(n / 10, width_before_last(width)).push(
            digit((n % 10) as int),
        ),
{
    if n < 10 {
        assert(zero_padded(n, width) =~= zeros(width_before_last(width)).push(digit(n as int)));
    } else {
        assert(zero_padded(n, width) =~= zero_padded(n / 10, width_before_last(width)).push(
            digit((n % 10) as int),
        ));
    }
}

/// One decimal digit as a string.
fn digit_str(d: u8) -> (text: &'static str)
    requires
        d <= 9,
    ensures
        text@ == seq![digit(d as int)],
{
    proof {
        reveal_strlit("0");
        reveal_strlit("1");
        reveal_strlit("2");
        reveal_strlit("3");
        reveal_strlit("4");
        reveal_strlit("5");
        reveal_strlit("6");
        reveal_strlit("7");
        reveal_strlit("8");
        reveal_strlit("9");
    }
    let text: &'static str = match d {
        0 => "0",
        1 => "1",
        2 => "2",
        3 => "3",
        4 => "4",
        5 => "5",
        6 => "6",
        7 => "7",
        8 => "8",
        _ => "9",
    };
    assert(text@ =~= seq![digit(d as int)]);
    text
}

/// Appends `count` zeros to `text`.
fn push_zeros(text: &mut String, count: usize)
    ensures
        final(text)@ == old(text)@ + zeros(count as nat),
{
    let mut written: usize = 0;
    assert(text@ =~= old(text)@ + zeros(0));
    while written < count
        invariant
            written <= count,
            text@ == old(text)@ + zeros(written as nat),
        decreases count - written,
    {
        text.append(digit_str(0));
        written = written + 1;
        assert(text@ =~= old(text)@ + zeros(written as nat));
    }
}

/// Appends `n` to `text`, in decimal digits and padded with zeros to `width`
/// characters.
pub(crate) fn push_zero_padded(text: &mut String, n: u128, width: usize)
    ensures
        final(text)@ == old(text)@ + zero_padded(n as nat, width as nat),
    decreases n,
{
    let before_last: usize = if width > 0 {
        width - 1
    } else {
        0
    };
    proof {
        lemma_zero_padded_unfolds(n as nat, width as nat);
    }
    if n >= 10 {
        push_zero_padded(text, n / 10, before_last);
    } else {
        push_zeros(text, before_last);
    }
    text.append(digit_str((n % 10) as u8));
    assert(text@ =~= old(text)@ + zero_padded(n as nat, width as nat));
}

/// Appends `n` to `text`, in decimal digits.
pub(crate) fn push_decimal(text: &mut String, n: u128)
    ensures
        final(text)@ == old(text)@ + decimal(n as nat),
{
    push_zero_padded(text, n, 0);
}

} // verus!
