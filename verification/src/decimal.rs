//! Numbers as decimal text, with leading zeros up to a width.

use vstd::prelude::*;

verus! {

/// The character for the digit `d`, which is less than 10.
pub open spec fn digit_char(d: nat) -> char {
    (('0' as u8) + d) as u8 as char
}

/// `n` in decimal digits, without leading zeros.
pub open spec fn decimal(n: nat) -> Seq<char>
    decreases n,
{
    if n < 10 {
        seq![digit_char(n)]
    } else {
        decimal(n / 10).push(digit_char(n % 10))
    }
}

/// `n` in decimal digits, with zeros in front up to `width` characters;
/// longer where `n` needs more.
pub open spec fn zero_padded(n: nat, width: nat) -> Seq<char> {
    let digits = decimal(n);
    if digits.len() >= width {
        digits
    } else {
        Seq::new((width - digits.len()) as nat, |i: int| '0') + digits
    }
}

/// Appends `n` to `out` in decimal digits, with zeros in front up to `width`
/// characters.
pub fn push_zero_padded(out: &mut String, n: u128, width: usize)
    ensures
        final(out)@ == old(out)@ + zero_padded(n as nat, width as nat),
{
    // The digits, last digit first.
    let mut digits: Vec<char> = Vec::new();
    let mut rest = n;
    while rest >= 10
        invariant
            decimal(n as nat) == decimal(rest as nat) + digits@.reverse(),
        decreases rest,
    {
        let ghost before = digits@;
        digits.push((48u8 + (rest % 10) as u8) as char);
        proof {
            let d = digit_char((rest % 10) as nat);
            assert(digits@.reverse() =~= seq![d] + before.reverse());
            assert(decimal(rest as nat) + before.reverse() =~= decimal((rest / 10) as nat)
                + digits@.reverse());
        }
        rest = rest / 10;
    }
    let ghost before = digits@;
    digits.push((48u8 + rest as u8) as char);
    assert(digits@.reverse() =~= decimal(n as nat)) by {
        assert(digits@.reverse() =~= seq![digit_char(rest as nat)] + before.reverse());
    }
    let ghost plain = digits@;
    while digits.len() < width
        invariant
            plain.len() <= digits@.len(),
            digits@.len() <= width || digits@ == plain,
            digits@ == plain + Seq::new((digits@.len() - plain.len()) as nat, |i: int| '0'),
        decreases width - digits.len(),
    {
        digits.push('0');
        assert(digits@ =~= plain + Seq::new((digits@.len() - plain.len()) as nat, |i: int| '0'));
    }
    assert(digits@.reverse() =~= zero_padded(n as nat, width as nat));
    let mut i = digits.len();
    while i > 0
        invariant
            i <= digits@.len(),
            out@ == old(out)@ + digits@.reverse().take(digits@.len() - i),
        decreases i,
    {
        i -= 1;
        out.push(digits[i]);
        assert(out@ =~= old(out)@ + digits@.reverse().take(digits@.len() - i));
    }
    assert(digits@.reverse().take(digits@.len() as int) =~= digits@.reverse());
}

} // verus!
