use vstd::prelude::*;
use vstd::string::*;

verus! {

/// Numbers are fixed-point decimals held in millionths: the number 2.5 is held as 2_500_000.
pub const SCALE: i64 = 1_000_000;

/// The number of fractional digits that `SCALE` provides.
pub const FRACTION_DIGITS: u8 = 6;

pub open spec fn digit_char(d: nat) -> char {
    if d == 0 {
        '0'
    } else if d == 1 {
        '1'
    } else if d == 2 {
        '2'
    } else if d == 3 {
        '3'
    } else if d == 4 {
        '4'
    } else if d == 5 {
        '5'
    } else if d == 6 {
        '6'
    } else if d == 7 {
        '7'
    } else if d == 8 {
        '8'
    } else {
        '9'
    }
}

/// The decimal digits of `n`, most significant first, without leading zeros.
pub open spec fn nat_text(n: nat) -> Seq<char>
    decreases n,
{
    if n < 10 {
        seq![digit_char(n)]
    } else {
        nat_text(n / 10) + seq![digit_char(n % 10)]
    }
}

/// The lowest `k` decimal digits of `n`, padded with leading zeros.
pub open spec fn padded_digits(n: nat, k: nat) -> Seq<char>
    decreases k,
{
    if k == 0 {
        seq![]
    } else {
        padded_digits(n / 10, (k - 1) as nat) + seq![digit_char(n % 10)]
    }
}

/// The lowest `k` digits of `n`, zero padded, with trailing zeros removed.
pub open spec fn trimmed_digits(n: nat, k: nat) -> Seq<char>
    decreases k,
{
    if k > 0 && n % 10 == 0 {
        trimmed_digits(n / 10, (k - 1) as nat)
    } else {
        padded_digits(n, k)
    }
}

pub open spec fn abs(v: int) -> nat {
    if v < 0 {
        (-v) as nat
    } else {
        v as nat
    }
}

/// The decimal text of an integer, with a sign when negative.
pub open spec fn int_text(v: int) -> Seq<char> {
    if v < 0 {
        seq!['-'] + nat_text(abs(v))
    } else {
        nat_text(abs(v))
    }
}

/// The text of a fixed-point number `v` (in millionths): a sign when negative, the
/// integer part, and the fractional part without trailing zeros when it is not zero.
pub open spec fn decimal_text(v: int) -> Seq<char> {
    let m = abs(v);
    let sign = if v < 0 {
        seq!['-']
    } else {
        Seq::<char>::empty()
    };
    let frac = if m % (SCALE as nat) == 0 {
        Seq::<char>::empty()
    } else {
        seq!['.'] + trimmed_digits(m % (SCALE as nat), FRACTION_DIGITS as nat)
    };
    sign + nat_text(m / (SCALE as nat)) + frac
}

fn digit_str(d: u128) -> (r: &'static str)
    requires
        d < 10,
    ensures
        r@ == seq![digit_char(d as nat)],
{
    proof {
        reveal_strlit("0");
        reveal_strlit("1");
        reveal_strlit("2");
        reveal_strlit("3");
        reveal_strlit("4");
        reveal_strlit("5");
        reveal_strlit("6");
        reveal_strlit("7");
        reveal_strlit("8");
        reveal_strlit("9");
    }
    if d == 0 {
        "0"
    } else if d == 1 {
        "1"
    } else if d == 2 {
        "2"
    } else if d == 3 {
        "3"
    } else if d == 4 {
        "4"
    } else if d == 5 {
        "5"
    } else if d == 6 {
        "6"
    } else if d == 7 {
        "7"
    } else if d == 8 {
        "8"
    } else {
        "9"
    }
}

/// Appends the decimal digits of `n` to `out`.
pub fn push_nat(n: u128, out: &mut String)
    ensures
        final(out)@ == old(out)@ + nat_text(n as nat),
    decreases n,
{
    if n >= 10 {
        push_nat(n / 10, out);
    }
    out.append(digit_str(n % 10));
    proof {
        assert(final(out)@ =~= old(out)@ + nat_text(n as nat));
    }
}

fn push_padded(n: u128, k: u8, out: &mut String)
    ensures
        final(out)@ == old(out)@ + padded_digits(n as nat, k as nat),
    decreases k,
{
    if k > 0 {
        push_padded(n / 10, k - 1, out);
        out.append(digit_str(n % 10));
    }
    proof {
        assert(final(out)@ =~= old(out)@ + padded_digits(n as nat, k as nat));
    }
}

/// The decimal text of a natural number.
pub fn nat_to_string(n: u128) -> (r: String)
    ensures
        r@ == nat_text(n as nat),
{
    let mut s = String::new();
    push_nat(n, &mut s);
    proof {
        assert(s@ =~= nat_text(n as nat));
    }
    s
}

/// The decimal text of an integer.
pub fn int_to_string(v: i64) -> (r: String)
    ensures
        r@ == int_text(v as int),
{
    let mut s = String::new();
    proof {
        reveal_strlit("-");
    }
    if v < 0 {
        s.append("-");
    }
    let m: u128 = if v < 0 {
        ((-(v as i128)) as u128)
    } else {
        v as u128
    };
    push_nat(m, &mut s);
    proof {
        assert(s@ =~= int_text(v as int));
    }
    s
}

/// The text of a fixed-point number held in millionths.
pub fn format_decimal(v: i128) -> (r: String)
    ensures
        r@ == decimal_text(v as int),
{
    let mut s = String::new();
    proof {
        reveal_strlit("-");
        reveal_strlit(".");
    }
    if v < 0 {
        s.append("-");
    }
    let m: u128 = if v < 0 {
        ((-(v + 1)) as u128) + 1
    } else {
        v as u128
    };
    assert(m as nat == abs(v as int));
    let scale: u128 = SCALE as u128;
    push_nat(m / scale, &mut s);
    let mut f: u128 = m % scale;
    if f != 0 {
        s.append(".");
        let mut k: u8 = FRACTION_DIGITS;
        while k > 0 && f % 10 == 0
            invariant
                k <= FRACTION_DIGITS,
                trimmed_digits(f as nat, k as nat) == trimmed_digits(
                    (m % scale) as nat,
                    FRACTION_DIGITS as nat,
                ),
            decreases k,
        {
            f = f / 10;
            k = k - 1;
        }
        assert(trimmed_digits(f as nat, k as nat) == padded_digits(f as nat, k as nat));
        push_padded(f, k, &mut s);
    }
    proof {
        assert(s@ =~= decimal_text(v as int));
    }
    s
}

} // verus!
