//! Small string-building support shared by the modules that assemble
//! paths and failure descriptions: appending, and rendering a number in
//! decimal.

use vstd::prelude::*;

verus! {

/// Relies on `String::push_str`: appends the given suffix to the string.
#[verifier::external_body]
pub(crate) fn append_str(base: &mut String, suffix: &str)
    ensures
        final(base)@ == old(base)@ + suffix@,
{
    base.push_str(suffix);
}

/// The character for a decimal digit.
pub open spec fn digit_char(d: nat) -> char {
    (((d + 48) as u8) as char)
}

/// The decimal rendering of a number, most significant digit first.
pub open spec fn decimal_digits(n: nat) -> Seq<char>
    decreases n,
{
    if n < 10 {
        seq![digit_char(n)]
    } else {
        decimal_digits(n / 10) + seq![digit_char(n % 10)]
    }
}

/// The one-character string for a decimal digit.
fn digit_str(d: u64) -> (r: &'static str)
    requires
        d < 10,
    ensures
        r@ == seq![digit_char(d as nat)],
{
    proof {
        reveal_strlit("0");
        reveal_strlit("1");
        reveal_strlit("2");
        reveal_strlit("3");
        reveal_strlit("4");
        reveal_strlit("5");
        reveal_strlit("6");
        reveal_strlit("7");
        reveal_strlit("8");
        reveal_strlit("9");
    }
    match d {
        0 => "0",
        1 => "1",
        2 => "2",
        3 => "3",
        4 => "4",
        5 => "5",
        6 => "6",
        7 => "7",
        8 => "8",
        _ => "9",
    }
}

/// Appends the decimal rendering of `n`.
pub(crate) fn push_decimal(base: &mut String, n: u64)
    ensures
        final(base)@ == old(base)@ + decimal_digits(n as nat),
    decreases n,
{
    if n < 10 {
        append_str(base, digit_str(n));
    } else {
        push_decimal(base, n / 10);
        append_str(base, digit_str(n % 10));
        assert(old(base)@ + decimal_digits((n / 10) as nat) + seq![digit_char((n % 10) as nat)]
            =~= old(base)@ + decimal_digits(n as nat));
    }
}

} // verus!
