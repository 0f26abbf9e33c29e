//! Decimal text for the emitter: digits, unsigned decimal numerals, and
//! the fixed-point literal text of a constant held in thousandths.

use vstd::prelude::*;

verus! {

/// The decimal digit character for a value below ten.
pub open spec fn digit_char(d: int) -> char {
    if d == 0 {
        '0'
    } else if d == 1 {
        '1'
    } else if d == 2 {
        '2'
    } else if d == 3 {
        '3'
    } else if d == 4 {
        '4'
    } else if d == 5 {
        '5'
    } else if d == 6 {
        '6'
    } else if d == 7 {
        '7'
    } else if d == 8 {
        '8'
    } else {
        '9'
    }
}

/// The decimal numeral of a non-negative integer, most significant digit
/// first, with no leading zeros except for the numeral of zero itself.
pub open spec fn dec_text(n: int) -> Seq<char>
    decreases n,
{
    if n < 10 {
        seq![digit_char(n)]
    } else {
        dec_text(n / 10) + seq![digit_char(n % 10)]
    }
}

/// The literal text of a constant of `m` thousandths: an optional minus
/// sign, the whole part, and the fractional digits with trailing zeros
/// trimmed and the point dropped when no fractional digit remains.
pub open spec fn const_text(m: int) -> Seq<char> {
    let a = if m < 0 {
        -m
    } else {
        m
    };
    let whole = a / 1000;
    let f = a % 1000;
    let d1 = f / 100;
    let d2 = (f / 10) % 10;
    let d3 = f % 10;
    let sign: Seq<char> = if m < 0 {
        seq!['-']
    } else {
        Seq::empty()
    };
    let frac: Seq<char> = if f == 0 {
        Seq::empty()
    } else if d3 != 0 {
        seq!['.', digit_char(d1), digit_char(d2), digit_char(d3)]
    } else if d2 != 0 {
        seq!['.', digit_char(d1), digit_char(d2)]
    } else {
        seq!['.', digit_char(d1)]
    };
    sign + dec_text(whole) + frac
}

/// The one-character string of the decimal digit `d`.
pub fn digit_str(d: u32) -> (t: &'static str)
    requires
        d < 10,
    ensures
        t@ =~= seq![digit_char(d as int)],
{
    proof {
        reveal_strlit("0");
        reveal_strlit("1");
        reveal_strlit("2");
        reveal_strlit("3");
        reveal_strlit("4");
        reveal_strlit("5");
        reveal_strlit("6");
        reveal_strlit("7");
        reveal_strlit("8");
        reveal_strlit("9");
    }
    match d {
        0 => "0",
        1 => "1",
        2 => "2",
        3 => "3",
        4 => "4",
        5 => "5",
        6 => "6",
        7 => "7",
        8 => "8",
        _ => "9",
    }
}

/// Appends the decimal numeral of `n` to `out`.
pub fn append_dec(out: &mut String, n: u32)
    ensures
        final(out)@ == old(out)@ + dec_text(n as int),
    decreases n,
{
    if n < 10 {
        out.append(digit_str(n));
    } else {
        append_dec(out, n / 10);
        out.append(digit_str(n % 10));
        proof {
            assert(out@ =~= old(out)@ + dec_text(n as int));
        }
    }
}

/// Appends the constant-literal text of `m` thousandths to `out`.
pub fn append_const(out: &mut String, m: i32)
    ensures
        final(out)@ == old(out)@ + const_text(m as int),
{
    let a: u32 = if m < 0 {
        (-(m as i64)) as u32
    } else {
        m as u32
    };
    let whole: u32 = a / 1000;
    let f: u32 = a % 1000;
    let d1: u32 = f / 100;
    let d2: u32 = (f / 10) % 10;
    let d3: u32 = f % 10;
    if m < 0 {
        proof {
            reveal_strlit("-");
        }
        out.append("-");
    }
    append_dec(out, whole);
    if f != 0 {
        proof {
            reveal_strlit(".");
        }
        out.append(".");
        out.append(digit_str(d1));
        if d3 != 0 {
            out.append(digit_str(d2));
            out.append(digit_str(d3));
        } else if d2 != 0 {
            out.append(digit_str(d2));
        }
    }
    proof {
        assert(out@ =~= old(out)@ + const_text(m as int));
    }
}

} // verus!
