use vstd::prelude::*;

use crate::ratio::Ratio;
use vstd::string::StringExecFns;

verus! {

/// The magnitude of `r`'s numerator.
pub open spec fn magnitude(r: Ratio) -> nat {
    (if r.num < 0 { -r.num } else { r.num as int }) as nat
}

/// `|r|` times 100, rounded to the nearest integer, halves up.
pub open spec fn round_hundredths(r: Ratio) -> nat {
    ((200 * magnitude(r) + r.den) / (2 * r.den)) as nat
}

pub open spec fn digit_char(d: int) -> char {
    ((d + 48) as u8) as char
}

/// Decimal digits of `n`, most significant first, without leading zeros.
pub open spec fn decimal_digits(n: nat) -> Seq<char>
    decreases n,
{
    if n < 10 {
        seq![digit_char(n as int)]
    } else {
        decimal_digits(n / 10) + seq![digit_char((n % 10) as int)]
    }
}

/// The number `h` read as hundredths, written with two digits after the point.
pub open spec fn fixed_point(h: nat) -> Seq<char> {
    decimal_digits(h / 100) + seq![
        '.',
        digit_char(((h % 100) / 10) as int),
        digit_char((h % 10) as int),
    ]
}

fn digit_text(d: u128) -> (s: &'static str)
    requires
        d < 10,
    ensures
        s@ == seq![digit_char(d as int)],
{
    match d {
        0 => {
            proof {
                reveal_strlit("0");
            }
            "0"
        },
        1 => {
            proof {
                reveal_strlit("1");
            }
            "1"
        },
        2 => {
            proof {
                reveal_strlit("2");
            }
            "2"
        },
        3 => {
            proof {
                reveal_strlit("3");
            }
            "3"
        },
        4 => {
            proof {
                reveal_strlit("4");
            }
            "4"
        },
        5 => {
            proof {
                reveal_strlit("5");
            }
            "5"
        },
        6 => {
            proof {
                reveal_strlit("6");
            }
            "6"
        },
        7 => {
            proof {
                reveal_strlit("7");
            }
            "7"
        },
        8 => {
            proof {
                reveal_strlit("8");
            }
            "8"
        },
        _ => {
            proof {
                reveal_strlit("9");
            }
            "9"
        },
    }
}

fn push_digits(n: u128, out: &mut String)
    ensures
        final(out)@ == old(out)@ + decimal_digits(n as nat),
    decreases n,
{
    if n >= 10 {
        push_digits(n / 10, out);
    }
    out.append(digit_text(n % 10));
    assert(final(out)@ =~= old(out)@ + decimal_digits(n as nat));
}

/// Whether `round_hundredths(r)` can be computed in `i128`.
pub open spec fn hundredths_fit(r: Ratio) -> bool {
    &&& r.num > i128::MIN
    &&& 200 * magnitude(r) + r.den <= i128::MAX
    &&& 2 * r.den <= i128::MAX
}

/// What a field shows for a value: a minus sign where the value is negative, then its
/// magnitude with two digits after the point; `NaN` where the value is undefined or too
/// large to write. A negative value that rounds to zero shows as `-0.00`.
pub open spec fn shown(v: Option<Ratio>) -> Seq<char> {
    match v {
        Some(r) => if hundredths_fit(r) {
            (if r.num < 0 { seq!['-'] } else { Seq::empty() }) + fixed_point(round_hundredths(r))
        } else {
            seq!['N', 'a', 'N']
        },
        None => seq!['N', 'a', 'N'],
    }
}

fn hundredths(r: Ratio) -> (h: Option<u128>)
    requires
        r.well_formed(),
    ensures
        h == (if hundredths_fit(r) { Some(round_hundredths(r) as u128) } else { None }),
{
    if r.num == i128::MIN {
        return None;
    }
    let a = if r.num < 0 { -r.num } else { r.num };
    let t = match a.checked_mul(200) {
        Some(x) => x.checked_add(r.den),
        None => None,
    };
    match (t, r.den.checked_mul(2)) {
        (Some(t), Some(d2)) => {
            let q = t / d2;
            assert(0 <= q <= t) by (nonlinear_arith)
                requires
                    q == t / d2,
                    t >= 0,
                    d2 > 0,
            ;
            Some(q as u128)
        },
        _ => None,
    }
}

/// Writes a value with two digits after the point: the sign, then the magnitude rounded
/// with halves away from zero; `NaN` where the value is undefined or too large to write
/// (its numerator times 200 plus its denominator must fit in `i128`).
pub fn to_lp_string(v: Option<Ratio>) -> (r: String)
    requires
        v matches Some(x) ==> x.well_formed(),
    ensures
        r@ == shown(v),
{
    let mut out = String::new();
    proof {
        reveal_strlit("-");
        reveal_strlit(".");
        reveal_strlit("NaN");
    }
    match v {
        Some(x) => match hundredths(x) {
            Some(h) => {
                if x.num < 0 {
                    out.append("-");
                }
                push_digits(h / 100, &mut out);
                out.append(".");
                out.append(digit_text((h % 100) / 10));
                out.append(digit_text(h % 10));
            },
            None => out.append("NaN"),
        },
        None => out.append("NaN"),
    }
    assert(out@ =~= shown(v));
    out
}

/// Writing `-x` gives a minus sign followed by what writing `x` gives, for every
/// positive `x` that can be written.
pub proof fn lemma_negative_shows_sign(r: Ratio)
    requires
        r.well_formed(),
        r.num > 0,
        hundredths_fit(r),
    ensures
        shown(Some(Ratio { num: (-r.num) as i128, den: r.den })) == seq!['-'] + shown(Some(r)),
{
    let n = Ratio { num: (-r.num) as i128, den: r.den };
    assert(magnitude(n) == magnitude(r));
    assert(shown(Some(n)) =~= seq!['-'] + shown(Some(r)));
}

} // verus!
