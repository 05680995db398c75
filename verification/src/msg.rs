//! The messages for ranges that do not fit.

use vstd::prelude::*;
use vstd::string::StringExecFns;

verus! {

/// The character of the decimal digit `d`.
pub open spec fn digit_char(d: nat) -> char {
    if d == 0 {
        '0'
    } else if d == 1 {
        '1'
    } else if d == 2 {
        '2'
    } else if d == 3 {
        '3'
    } else if d == 4 {
        '4'
    } else if d == 5 {
        '5'
    } else if d == 6 {
        '6'
    } else if d == 7 {
        '7'
    } else if d == 8 {
        '8'
    } else {
        '9'
    }
}

/// The decimal numeral of `n`, without leading zeros.
pub open spec fn decimal_of(n: nat) -> Seq<char>
    decreases n,
{
    if n < 10 {
        seq![digit_char(n)]
    } else {
        decimal_of(n / 10).push(digit_char(n % 10))
    }
}

/// The numeral of the decimal digit `d`.
fn digit_str(d: usize) -> (r: &'static str)
    requires
        d < 10,
    ensures
        r@ == seq![digit_char(d as nat)],
{
    proof {
        reveal_strlit("0");
        reveal_strlit("1");
        reveal_strlit("2");
        reveal_strlit("3");
        reveal_strlit("4");
        reveal_strlit("5");
        reveal_strlit("6");
        reveal_strlit("7");
        reveal_strlit("8");
        reveal_strlit("9");
    }
    let r = if d == 0 {
        "0"
    } else if d == 1 {
        "1"
    } else if d == 2 {
        "2"
    } else if d == 3 {
        "3"
    } else if d == 4 {
        "4"
    } else if d == 5 {
        "5"
    } else if d == 6 {
        "6"
    } else if d == 7 {
        "7"
    } else if d == 8 {
        "8"
    } else {
        "9"
    };
    assert(r@ =~= seq![digit_char(d as nat)]);
    r
}

/// The decimal numeral of `n`.
pub fn decimal(n: usize) -> (r: String)
    ensures
        r@ == decimal_of(n as nat),
    decreases n,
{
    if n < 10 {
        String::from_str(digit_str(n))
    } else {
        let head = decimal(n / 10);
        let r = head.concat(digit_str(n % 10));
        assert(r@ =~= decimal_of(n as nat));
        r
    }
}

/// The message for a range that ends at `re`, behind the length `len`.
pub fn range_end_gt_len(re: usize, len: usize) -> (r: String)
    ensures
        r@ == "Range end "@ + decimal_of(re as nat) + " is greater than length "@ + decimal_of(
            len as nat,
        ) + "."@,
{
    let r = String::from_str("Range end ");
    let r = r.concat(decimal(re).as_str());
    let r = r.concat(" is greater than length ");
    let r = r.concat(decimal(len).as_str());
    r.concat(".")
}

/// The message for a range that starts at `start`, behind its end `end`.
pub fn range_order_rev(start: usize, end: usize) -> (r: String)
    ensures
        r@ == "Range start "@ + decimal_of(start as nat) + " is greater than range end "@
            + decimal_of(end as nat) + "."@,
{
    let r = String::from_str("Range start ");
    let r = r.concat(decimal(start).as_str());
    let r = r.concat(" is greater than range end ");
    let r = r.concat(decimal(end).as_str());
    r.concat(".")
}

} // verus!
