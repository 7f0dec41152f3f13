//! Building diagnostic messages.
use vstd::prelude::*;

verus! {

/// The decimal digit for `d < 10`.
pub open spec fn digit_char(d: nat) -> char {
    if d == 0 {
        '0'
    } else if d == 1 {
        '1'
    } else if d == 2 {
        '2'
    } else if d == 3 {
        '3'
    } else if d == 4 {
        '4'
    } else if d == 5 {
        '5'
    } else if d == 6 {
        '6'
    } else if d == 7 {
        '7'
    } else if d == 8 {
        '8'
    } else {
        '9'
    }
}

/// The decimal notation of `n`, without leading zeros.
pub open spec fn decimal(n: nat) -> Seq<char>
    decreases n,
{
    if n < 10 {
        seq![digit_char(n)]
    } else {
        decimal(n / 10).push(digit_char(n % 10))
    }
}

fn digit_str(d: usize) -> (r: &'static str)
    requires
        d < 10,
    ensures
        r@ == seq![digit_char(d as nat)],
{
    proof {
        reveal_strlit("0");
        reveal_strlit("1");
        reveal_strlit("2");
        reveal_strlit("3");
        reveal_strlit("4");
        reveal_strlit("5");
        reveal_strlit("6");
        reveal_strlit("7");
        reveal_strlit("8");
        reveal_strlit("9");
    }
    if d == 0 {
        "0"
    } else if d == 1 {
        "1"
    } else if d == 2 {
        "2"
    } else if d == 3 {
        "3"
    } else if d == 4 {
        "4"
    } else if d == 5 {
        "5"
    } else if d == 6 {
        "6"
    } else if d == 7 {
        "7"
    } else if d == 8 {
        "8"
    } else {
        "9"
    }
}

/// Appends the decimal notation of `n` to `out`.
pub fn push_decimal(n: usize, out: &mut String)
    ensures
        final(out)@ == old(out)@ + decimal(n as nat),
    decreases n,
{
    if n >= 10 {
        push_decimal(n / 10, out);
    }
    out.append(digit_str(n % 10));
    assert(out@ =~= old(out)@ + decimal(n as nat));
}

/// The message that a wrong number of arguments gets.
pub open spec fn arity_message(expected: nat, found: nat) -> Seq<char> {
    "Expected "@ + decimal(expected) + " args but "@ + decimal(found) + " were found"@
}

/// The message that a wrong number of arguments gets.
pub fn arity_message_text(expected: usize, found: usize) -> (r: String)
    ensures
        r@ == arity_message(expected as nat, found as nat),
{
    let mut r = String::from_str("Expected ");
    push_decimal(expected, &mut r);
    r.append(" args but ");
    push_decimal(found, &mut r);
    r.append(" were found");
    r
}

/// The message that a value of an unexpected type gets.
pub open spec fn mismatch_message(expected: Seq<char>, found: Seq<char>) -> Seq<char> {
    "Expected "@ + expected + " but found "@ + found
}

/// The message that a value of an unexpected type gets.
pub fn mismatch_message_text(expected: &String, found: &String) -> (r: String)
    ensures
        r@ == mismatch_message(expected@, found@),
{
    let mut r = String::from_str("Expected ");
    r.append(expected.as_str());
    r.append(" but found ");
    r.append(found.as_str());
    r
}

} // verus!
