//! The text that stands for a secret wherever one would be printed.

use vstd::prelude::*;

verus! {

/// The decimal digit for `d`, where `d` is less than ten.
pub open spec fn digit(d: nat) -> char {
    if d == 0 {
        '0'
    } else if d == 1 {
        '1'
    } else if d == 2 {
        '2'
    } else if d == 3 {
        '3'
    } else if d == 4 {
        '4'
    } else if d == 5 {
        '5'
    } else if d == 6 {
        '6'
    } else if d == 7 {
        '7'
    } else if d == 8 {
        '8'
    } else {
        '9'
    }
}

/// The decimal digits of `n`, without leading zeroes.
pub open spec fn decimal(n: nat) -> Seq<char>
    decreases n,
{
    if n < 10 {
        seq![digit(n)]
    } else {
        decimal(n / 10).push(digit(n % 10))
    }
}

/// What is shown in place of a secret of `size` bytes: its size between
/// braces, and nothing of what it holds.
pub open spec fn redacted_text(size: nat) -> Seq<char> {
    seq!['{', ' '] + decimal(size) + seq![
        ' ',
        'b',
        'y',
        't',
        'e',
        's',
        ' ',
        'r',
        'e',
        'd',
        'a',
        'c',
        't',
        'e',
        'd',
        ' ',
        '}',
    ]
}

/// Formats the placeholder of a secret of `size` bytes with std's
/// `format!`. Trusted: that `{}` renders a `usize` as its decimal digits
/// without leading zeroes, and that the text around it is copied as it
/// stands.
#[verifier::external_body]
pub(crate) fn redacted(size: usize) -> (text: String)
    ensures
        text@ == redacted_text(size as nat),
{
    format!("{{ {} bytes redacted }}", size)
}

} // verus!
