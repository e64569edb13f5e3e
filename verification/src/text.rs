//! Rendering of unsigned numbers as decimal text, for diagnostic strings.

use vstd::prelude::*;
use vstd::string::StringExecFns;

verus! {

/// The decimal digit character for a value below ten.
pub open spec fn digit_model(d: nat) -> char {
    if d == 0 {
        '0'
    } else if d == 1 {
        '1'
    } else if d == 2 {
        '2'
    } else if d == 3 {
        '3'
    } else if d == 4 {
        '4'
    } else if d == 5 {
        '5'
    } else if d == 6 {
        '6'
    } else if d == 7 {
        '7'
    } else if d == 8 {
        '8'
    } else {
        '9'
    }
}

/// The usual decimal rendering of a number: most significant digit first,
/// no leading zeros except for the number 0 itself.
pub open spec fn dec_model(n: nat) -> Seq<char>
    decreases n,
{
    if n < 10 {
        seq![digit_model(n)]
    } else {
        dec_model(n / 10) + seq![digit_model(n % 10)]
    }
}

/// The decimal digit character for a value below ten.
fn digit_text(d: usize) -> (r: &'static str)
    requires
        d < 10,
    ensures
        r@ == seq![digit_model(d as nat)],
{
    proof {
        reveal_strlit("0");
        reveal_strlit("1");
        reveal_strlit("2");
        reveal_strlit("3");
        reveal_strlit("4");
        reveal_strlit("5");
        reveal_strlit("6");
        reveal_strlit("7");
        reveal_strlit("8");
        reveal_strlit("9");
    }
    let r = match d {
        0 => "0",
        1 => "1",
        2 => "2",
        3 => "3",
        4 => "4",
        5 => "5",
        6 => "6",
        7 => "7",
        8 => "8",
        _ => "9",
    };
    proof {
        assert(r@ =~= seq![digit_model(d as nat)]);
    }
    r
}

/// Renders a number as decimal text.
pub fn usize_text(n: usize) -> (r: String)
    ensures
        r@ == dec_model(n as nat),
    decreases n,
{
    if n < 10 {
        digit_text(n).to_owned()
    } else {
        proof {
            assert(n / 10 < n) by (nonlinear_arith)
                requires
                    n >= 10,
            ;
        }
        let mut s = usize_text(n / 10);
        s.append(digit_text(n % 10));
        proof {
            assert(s@ =~= dec_model(n as nat));
        }
        s
    }
}

} // verus!
