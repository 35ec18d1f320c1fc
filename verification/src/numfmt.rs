//! Decimal rendering of unsigned integers, used for the confidence column,
//! the limit query parameter and the metadata report.

use vstd::prelude::*;

verus! {

/// The decimal digit character for one value below ten.
pub open spec fn digit_char(d: int) -> char
    recommends
        0 <= d < 10,
{
    ('0' as u8 + d as u8) as char
}

/// The usual decimal rendering of `n`: no sign, and no leading zero except
/// for the number zero itself.
pub open spec fn dec_rep(n: int) -> Seq<char>
    recommends
        n >= 0,
    decreases n,
{
    if n < 10 {
        seq![digit_char(n)]
    } else {
        dec_rep(n / 10).push(digit_char(n % 10))
    }
}

/// Renders `n` in decimal.
pub fn dec_string(n: usize) -> (s: String)
    ensures
        s@ == dec_rep(n as int),
{
    let mut digits: Vec<char> = Vec::new();
    let mut m: usize = n;
    proof {
        assert(dec_rep(n as int) =~= dec_rep(m as int) + digits@);
    }
    loop
        invariant_except_break
            dec_rep(n as int) == dec_rep(m as int) + digits@,
        ensures
            dec_rep(n as int) == digits@,
        decreases m,
    {
        let d: u8 = (m % 10) as u8;
        let c: char = ('0' as u8 + d) as char;
        proof {
            assert(c == digit_char(m as int % 10));
        }
        digits.insert(0, c);
        if m < 10 {
            proof {
                assert(dec_rep(m as int) =~= seq![c]);
                assert(dec_rep(n as int) =~= digits@);
            }
            break;
        }
        proof {
            assert(dec_rep(m as int) =~= dec_rep(m as int / 10) + seq![c]);
            assert(dec_rep(m as int / 10) + digits@ =~= dec_rep(n as int));
        }
        m = m / 10;
    }
    let mut s = String::new();
    crate::text::push_seq(&mut s, &digits);
    proof {
        assert(s@ =~= digits@);
    }
    s
}

} // verus!
