use vstd::prelude::*;
use vstd::string::StringExecFns;

verus! {

/// The character of a decimal digit.
pub open spec fn digit_char(d: int) -> char {
    if d == 0 {
        '0'
    } else if d == 1 {
        '1'
    } else if d == 2 {
        '2'
    } else if d == 3 {
        '3'
    } else if d == 4 {
        '4'
    } else if d == 5 {
        '5'
    } else if d == 6 {
        '6'
    } else if d == 7 {
        '7'
    } else if d == 8 {
        '8'
    } else {
        '9'
    }
}

/// The decimal digits of `n`, without leading zeros.
pub open spec fn digits(n: nat) -> Seq<char>
    decreases n,
{
    if n < 10 {
        seq![digit_char(n as int)]
    } else {
        digits(n / 10).push(digit_char((n % 10) as int))
    }
}

/// The last `places` decimal digits of `f`, with leading zeros.
pub open spec fn fraction_digits(f: nat, places: nat) -> Seq<char>
    decreases places,
{
    if places == 0 {
        Seq::empty()
    } else {
        fraction_digits(f / 10, (places - 1) as nat).push(digit_char((f % 10) as int))
    }
}

/// `s` without the zeros that end it.
pub open spec fn trim_trailing_zeros(s: Seq<char>) -> Seq<char>
    decreases s.len(),
{
    if s.len() > 0 && s.last() == '0' {
        trim_trailing_zeros(s.drop_last())
    } else {
        s
    }
}

pub open spec fn ten_pow(places: nat) -> nat
    decreases places,
{
    if places == 0 {
        1
    } else {
        10 * ten_pow((places - 1) as nat)
    }
}

/// The shortest decimal text of `m / 10^places`: the integer part, then a
/// point and the digits of the fraction up to its last non-zero one, where
/// the fraction is not zero.
pub open spec fn unsigned_decimal(m: nat, places: nat) -> Seq<char> {
    let frac = trim_trailing_zeros(fraction_digits(m % ten_pow(places), places));
    if frac.len() == 0 {
        digits(m / ten_pow(places))
    } else {
        digits(m / ten_pow(places)) + seq!['.'] + frac
    }
}

/// The decimal text of `v / 10^places`, with a minus sign where negative.
pub open spec fn decimal_text(v: int, places: nat) -> Seq<char> {
    if v < 0 {
        seq!['-'] + unsigned_decimal((-v) as nat, places)
    } else {
        unsigned_decimal(v as nat, places)
    }
}

/// The decimal text of `v / 10^places`, always with its sign.
pub open spec fn signed_decimal_text(v: int, places: nat) -> Seq<char> {
    if v < 0 {
        seq!['-'] + unsigned_decimal((-v) as nat, places)
    } else {
        seq!['+'] + unsigned_decimal(v as nat, places)
    }
}

fn digit_str(d: u128) -> (r: &'static str)
    requires
        d < 10,
    ensures
        r@ == seq![digit_char(d as int)],
{
    proof {
        reveal_strlit("0");
        reveal_strlit("1");
        reveal_strlit("2");
        reveal_strlit("3");
        reveal_strlit("4");
        reveal_strlit("5");
        reveal_strlit("6");
        reveal_strlit("7");
        reveal_strlit("8");
        reveal_strlit("9");
    }
    if d == 0 {
        "0"
    } else if d == 1 {
        "1"
    } else if d == 2 {
        "2"
    } else if d == 3 {
        "3"
    } else if d == 4 {
        "4"
    } else if d == 5 {
        "5"
    } else if d == 6 {
        "6"
    } else if d == 7 {
        "7"
    } else if d == 8 {
        "8"
    } else {
        "9"
    }
}

/// Appends the decimal digits of `n`.
pub fn push_digits(out: &mut String, n: u128)
    ensures
        final(out)@ == old(out)@ + digits(n as nat),
    decreases n,
{
    if n >= 10 {
        push_digits(out, n / 10);
    }
    out.append(digit_str(n % 10));
    assert(n < 10 ==> n % 10 == n);
}

/// Appends the last `places` digits of `f`, with leading zeros.
fn push_fraction(out: &mut String, f: u128, places: u32)
    ensures
        final(out)@ == old(out)@ + fraction_digits(f as nat, places as nat),
    decreases places,
{
    if places > 0 {
        push_fraction(out, f / 10, places - 1);
        out.append(digit_str(f % 10));
    }
}

proof fn lemma_trim_step(f: nat, places: nat)
    requires
        places > 0,
        f % 10 == 0,
    ensures
        trim_trailing_zeros(fraction_digits(f, places)) == trim_trailing_zeros(
            fraction_digits(f / 10, (places - 1) as nat),
        ),
{
    let s = fraction_digits(f, places);
    assert(s.drop_last() == fraction_digits(f / 10, (places - 1) as nat));
}

/// Appends the shortest decimal text of `m / 10^places`.
fn push_unsigned_decimal(out: &mut String, m: u128, places: u32)
    requires
        places <= 3,
    ensures
        final(out)@ == old(out)@ + unsigned_decimal(m as nat, places as nat),
{
    let scale: u128 = if places == 0 {
        1
    } else if places == 1 {
        10
    } else if places == 2 {
        100
    } else {
        1000
    };
    proof {
        reveal_with_fuel(ten_pow, 4);
    }
    assert(scale == ten_pow(places as nat));
    let whole = m / scale;
    let mut f = m % scale;
    let mut p = places;
    while p > 0 && f % 10 == 0
        invariant
            p <= places,
            trim_trailing_zeros(fraction_digits((m % scale) as nat, places as nat))
                == trim_trailing_zeros(fraction_digits(f as nat, p as nat)),
        decreases p,
    {
        proof {
            lemma_trim_step(f as nat, p as nat);
        }
        f = f / 10;
        p = p - 1;
    }
    assert(trim_trailing_zeros(fraction_digits(f as nat, p as nat)) == fraction_digits(
        f as nat,
        p as nat,
    ));
    push_digits(out, whole);
    if p > 0 {
        out.append(".");
        proof {
            reveal_strlit(".");
        }
        push_fraction(out, f, p);
    }
    assert(final(out)@ == old(out)@ + unsigned_decimal(m as nat, places as nat));
}

fn magnitude(v: i128) -> (r: u128)
    ensures
        r == if v < 0 { -v } else { v as int },
{
    if v < 0 {
        (-(v + 1)) as u128 + 1
    } else {
        v as u128
    }
}

/// Appends the decimal text of `v / 10^places`, with a minus sign where
/// negative.
pub fn push_decimal(out: &mut String, v: i128, places: u32)
    requires
        places <= 3,
    ensures
        final(out)@ == old(out)@ + decimal_text(v as int, places as nat),
{
    if v < 0 {
        out.append("-");
        proof {
            reveal_strlit("-");
        }
    }
    push_unsigned_decimal(out, magnitude(v), places);
    assert(final(out)@ =~= old(out)@ + decimal_text(v as int, places as nat));
}

/// Appends the decimal text of `v / 10^places`, with its sign.
pub fn push_signed_decimal(out: &mut String, v: i128, places: u32)
    requires
        places <= 3,
    ensures
        final(out)@ == old(out)@ + signed_decimal_text(v as int, places as nat),
{
    if v < 0 {
        out.append("-");
        proof {
            reveal_strlit("-");
        }
    } else {
        out.append("+");
        proof {
            reveal_strlit("+");
        }
    }
    push_unsigned_decimal(out, magnitude(v), places);
    assert(final(out)@ =~= old(out)@ + signed_decimal_text(v as int, places as nat));
}

} // verus!
