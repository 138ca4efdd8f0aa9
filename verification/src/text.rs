//! Building the human-readable descriptions of errors.

use vstd::prelude::*;

verus! {

/// The character of the decimal digit `d`.
pub open spec fn digit_char(d: int) -> char {
    (48 + d) as char
}

/// The decimal digits of `n`, most significant first, without leading zeros.
pub open spec fn decimal_digits(n: nat) -> Seq<char>
    decreases n,
{
    if n < 10 {
        seq![digit_char(n as int)]
    } else {
        decimal_digits(n / 10).push(digit_char((n % 10) as int))
    }
}

/// The decimal text of a `u16`, as std's `Display` writes it.
pub open spec fn decimal_text(n: u16) -> Seq<char> {
    decimal_digits(n as nat)
}

/// A number below 100000 has at most five decimal digits, and every number
/// has at least one.
pub proof fn lemma_decimal_len(n: nat)
    ensures
        decimal_digits(n).len() >= 1,
        n < 10 ==> decimal_digits(n).len() == 1,
        n < 100 ==> decimal_digits(n).len() <= 2,
        n < 1000 ==> decimal_digits(n).len() <= 3,
        n < 10000 ==> decimal_digits(n).len() <= 4,
        n < 100000 ==> decimal_digits(n).len() <= 5,
    decreases n,
{
    if n >= 10 {
        lemma_decimal_len(n / 10);
    }
}

/// Declares std's I/O error so that error values can carry it.
#[verifier::external_type_specification]
#[verifier::external_body]
pub struct ExIoError(std::io::Error);

/// std's `format!` of a text, a number in decimal (`Display` for `u16`:
/// its digits without sign, padding or leading zeros), and a text.
#[verifier::external_body]
pub(crate) fn text_with_number(prefix: &str, n: u16, suffix: &str) -> (s: String)
    ensures
        s@ == prefix@ + decimal_text(n) + suffix@,
{
    format!("{}{}{}", prefix, n, suffix)
}

/// std's `format!` of a text followed by an I/O error's own description,
/// which depends on the operating system and is not stated.
#[verifier::external_body]
pub(crate) fn text_with_io_error(prefix: &str, e: &std::io::Error) -> (s: String)
    ensures
        prefix@.len() <= s@.len(),
        s@.take(prefix@.len() as int) == prefix@,
{
    format!("{}{}", prefix, e)
}

} // verus!
