//! Decimal rendering of integers, used to derive job identifiers and
//! destination filenames (`S{season:02}E{episode:02}`).

use vstd::prelude::*;

verus! {

/// The decimal digit character for `d`, which must be below ten.
pub open spec fn digit_char(d: nat) -> char
    recommends
        d < 10,
{
    if d == 0 {
        '0'
    } else if d == 1 {
        '1'
    } else if d == 2 {
        '2'
    } else if d == 3 {
        '3'
    } else if d == 4 {
        '4'
    } else if d == 5 {
        '5'
    } else if d == 6 {
        '6'
    } else if d == 7 {
        '7'
    } else if d == 8 {
        '8'
    } else {
        '9'
    }
}

/// The decimal representation of a natural number, most significant
/// digit first, with no leading zeros (zero itself is `"0"`).
pub open spec fn dec_rep(n: nat) -> Seq<char>
    decreases n,
{
    if n < 10 {
        seq![digit_char(n)]
    } else {
        dec_rep(n / 10) + seq![digit_char(n % 10)]
    }
}

/// The decimal representation of an integer: a minus sign before the
/// digits of the magnitude when negative.
pub open spec fn int_rep(n: int) -> Seq<char> {
    if n < 0 {
        seq!['-'] + dec_rep((-n) as nat)
    } else {
        dec_rep(n as nat)
    }
}

/// `int_rep` left-padded with `'0'` to a width of at least two
/// characters, counting the sign, exactly as `{:02}` formats.
pub open spec fn padded2(n: int) -> Seq<char> {
    if int_rep(n).len() >= 2 {
        int_rep(n)
    } else {
        seq!['0'] + int_rep(n)
    }
}

/// A one-character string for a single decimal digit.
fn digit_str(d: u32) -> (r: String)
    requires
        d < 10,
    ensures
        r@ == seq![digit_char(d as nat)],
{
    proof {
        reveal_strlit("0");
        reveal_strlit("1");
        reveal_strlit("2");
        reveal_strlit("3");
        reveal_strlit("4");
        reveal_strlit("5");
        reveal_strlit("6");
        reveal_strlit("7");
        reveal_strlit("8");
        reveal_strlit("9");
    }
    let r = if d == 0 {
        "0".to_owned()
    } else if d == 1 {
        "1".to_owned()
    } else if d == 2 {
        "2".to_owned()
    } else if d == 3 {
        "3".to_owned()
    } else if d == 4 {
        "4".to_owned()
    } else if d == 5 {
        "5".to_owned()
    } else if d == 6 {
        "6".to_owned()
    } else if d == 7 {
        "7".to_owned()
    } else if d == 8 {
        "8".to_owned()
    } else {
        "9".to_owned()
    };
    proof {
        assert(r@ =~= seq![digit_char(d as nat)]);
    }
    r
}

/// Renders a natural number in decimal.
pub fn u32_to_string(n: u32) -> (r: String)
    ensures
        r@ == dec_rep(n as nat),
    decreases n,
{
    if n < 10 {
        digit_str(n)
    } else {
        let mut r = u32_to_string(n / 10);
        let last = digit_str(n % 10);
        r.append(last.as_str());
        proof {
            assert(r@ =~= dec_rep(n as nat));
        }
        r
    }
}

/// Renders a signed number in decimal, with a leading minus sign when
/// negative.
pub fn i32_to_string(n: i32) -> (r: String)
    ensures
        r@ == int_rep(n as int),
{
    if n >= 0 {
        u32_to_string(n as u32)
    } else {
        let mag: u64 = -(n as i64) as u64;
        let mut r = "-".to_owned();
        let digits = u32_to_string(mag as u32);
        r.append(digits.as_str());
        proof {
            reveal_strlit("-");
            assert(r@ =~= int_rep(n as int));
        }
        r
    }
}

/// Renders a signed number zero-padded to width two, as `{:02}` does.
pub fn i32_to_padded2(n: i32) -> (r: String)
    ensures
        r@ == padded2(n as int),
{
    if 0 <= n && n < 10 {
        let mut r = "0".to_owned();
        let d = digit_str(n as u32);
        r.append(d.as_str());
        proof {
            reveal_strlit("0");
            assert(int_rep(n as int).len() == 1);
            assert(r@ =~= padded2(n as int));
        }
        r
    } else {
        let r = i32_to_string(n);
        proof {
            lemma_int_rep_wide(n as int);
        }
        r
    }
}

/// Outside `0..=9`, the plain decimal rendering is already at least two
/// characters wide, so `{:02}` adds no padding.
proof fn lemma_int_rep_wide(n: int)
    requires
        n < 0 || n >= 10,
    ensures
        int_rep(n).len() >= 2,
        padded2(n) == int_rep(n),
{
    if n >= 10 {
        assert(dec_rep(n as nat).len() >= 2) by {
            assert(dec_rep((n as nat) / 10).len() >= 1) by {
                lemma_dec_rep_nonempty((n as nat) / 10);
            }
        }
    } else {
        lemma_dec_rep_nonempty((-n) as nat);
    }
}

/// A decimal rendering always has at least one digit.
proof fn lemma_dec_rep_nonempty(n: nat)
    ensures
        dec_rep(n).len() >= 1,
    decreases n,
{
    if n >= 10 {
        lemma_dec_rep_nonempty(n / 10);
    }
}

} // verus!
