use vstd::prelude::*;

use crate::ratio::Ratio;
use vstd::string::StringSliceAdditionalSpecFns;
use vstd::utf8::encode_utf8;

verus! {

/// The most digits that a decimal text may hold.
pub const MAX_DIGITS: u64 = 18;

pub open spec fn is_digit(c: u8) -> bool {
    48 <= c <= 57
}

pub open spec fn pow10(n: nat) -> int
    decreases n,
{
    if n == 0 {
        1
    } else {
        10 * pow10((n - 1) as nat)
    }
}

/// Reading of an unsigned decimal `ddd.ddd` from left to right: the digits read as
/// one integer, how many of them follow the point, whether the point was seen, and
/// how many digits there are. `None` when a byte is neither a digit nor the first point.
spec fn scan(s: Seq<u8>) -> Option<(int, nat, bool, nat)>
    decreases s.len(),
{
    if s.len() == 0 {
        Some((0, 0, false, 0))
    } else {
        match scan(s.drop_last()) {
            None => None,
            Some((n, f, dot, c)) => {
                let ch = s.last();
                if is_digit(ch) {
                    Some((n * 10 + (ch - 48), if dot { f + 1 } else { f }, dot, c + 1))
                } else if ch == 46 && !dot {
                    Some((n, f, true, c))
                } else {
                    None
                }
            },
        }
    }
}

pub open spec fn has_sign(s: Seq<u8>) -> bool {
    s.len() > 0 && (s[0] == 45 || s[0] == 43)
}

pub open spec fn unsigned_part(s: Seq<u8>) -> Seq<u8> {
    if has_sign(s) {
        s.skip(1)
    } else {
        s
    }
}

pub open spec fn all_digits(s: Seq<u8>) -> bool {
    forall|i: int| 0 <= i < s.len() ==> is_digit(#[trigger] s[i])
}

/// The integer that a run of decimal digits writes.
pub open spec fn digits_value(s: Seq<u8>) -> int
    decreases s.len(),
{
    if s.len() == 0 {
        0
    } else {
        10 * digits_value(s.drop_last()) + (s.last() - 48)
    }
}

/// `u` is a run of digits, a point at `k`, and a run of digits.
pub open spec fn point_at(u: Seq<u8>, k: int) -> bool {
    &&& 0 <= k < u.len()
    &&& u[k] == 46
    &&& all_digits(u.take(k))
    &&& all_digits(u.skip(k + 1))
}

/// An unsigned decimal `ddd` or `ddd.ddd`, either run possibly empty: the digits read
/// as one integer, how many of them follow the point, and how many there are.
pub open spec fn unsigned_value(u: Seq<u8>) -> Option<(int, nat, nat)> {
    if all_digits(u) {
        Some((digits_value(u), 0nat, u.len()))
    } else if exists|k: int| point_at(u, k) {
        let k = choose|k: int| point_at(u, k);
        Some((digits_value(u.take(k) + u.skip(k + 1)), (u.len() - k - 1) as nat, (u.len() - 1) as nat))
    } else {
        None
    }
}

/// The number that a text `[+-]ddd[.ddd]` writes, as numerator and denominator,
/// when it has between one and `MAX_DIGITS` digits.
pub open spec fn decimal_value(s: Seq<u8>) -> Option<(int, int)> {
    match unsigned_value(unsigned_part(s)) {
        Some((n, f, c)) => if 1 <= c <= MAX_DIGITS {
            Some((if has_sign(s) && s[0] == 45 { -n } else { n }, pow10(f)))
        } else {
            None
        },
        None => None,
    }
}

proof fn lemma_point_unique(u: Seq<u8>, k: int, j: int)
    requires
        point_at(u, k),
        point_at(u, j),
    ensures
        k == j,
{
    if k < j {
        assert(u.skip(k + 1)[j - k - 1] == u[j]);
    } else if j < k {
        assert(u.skip(j + 1)[k - j - 1] == u[k]);
    }
}

/// The left-to-right reading agrees with the description by parts.
proof fn lemma_scan_parts(u: Seq<u8>)
    ensures
        scan(u) is None <==> unsigned_value(u) is None,
        scan(u) matches Some((n, f, dot, c)) ==> unsigned_value(u) == Some((n, f, c))
            && (dot <==> !all_digits(u)),
    decreases u.len(),
{
    if u.len() == 0 {
        return;
    }
    let p = u.drop_last();
    let ch = u.last();
    let l = u.len() - 1;
    lemma_scan_parts(p);
    assert(u[l] == ch);
    assert(forall|i: int| 0 <= i < l ==> u[i] == p[i]);
    match scan(p) {
        None => {
            assert(!all_digits(p));
            assert(!all_digits(u)) by {
                if all_digits(u) {
                    assert(all_digits(p));
                }
            }
            assert forall|k: int| !point_at(u, k) by {
                if point_at(u, k) {
                    if k == l {
                        assert(u.take(k) =~= p);
                    } else {
                        assert(p.take(k) =~= u.take(k));
                        assert(p.skip(k + 1) =~= u.skip(k + 1).drop_last());
                        assert(point_at(p, k));
                    }
                }
            }
        },
        Some((n, f, dot, c)) => {
            if !dot {
                assert(all_digits(p));
                assert(f == 0 && c == p.len() && n == digits_value(p));
                if is_digit(ch) {
                    assert(all_digits(u));
                } else if ch == 46 {
                    assert(!all_digits(u));
                    assert(u.take(l) =~= p);
                    assert(u.skip(l + 1) =~= Seq::<u8>::empty());
                    assert(point_at(u, l));
                    let k = choose|k: int| point_at(u, k);
                    lemma_point_unique(u, k, l);
                    assert(u.take(k) + u.skip(k + 1) =~= p);
                } else {
                    assert(!all_digits(u));
                    assert forall|k: int| !point_at(u, k) by {
                        if point_at(u, k) {
                            if k < l {
                                assert(p[k] == 46);
                            }
                        }
                    }
                }
            } else {
                assert(!all_digits(p));
                let k = choose|k: int| point_at(p, k);
                assert(point_at(p, k));
                assert(n == digits_value(p.take(k) + p.skip(k + 1)));
                assert(!all_digits(u)) by {
                    assert(u[k] == p[k]);
                }
                if is_digit(ch) {
                    assert(u.take(k) =~= p.take(k));
                    assert(u.skip(k + 1) =~= p.skip(k + 1).push(ch));
                    assert(point_at(u, k));
                    let j = choose|j: int| point_at(u, j);
                    lemma_point_unique(u, k, j);
                    let joined = u.take(k) + u.skip(k + 1);
                    assert(joined.drop_last() =~= p.take(k) + p.skip(k + 1));
                    assert(joined.last() == ch);
                } else {
                    assert forall|j: int| !point_at(u, j) by {
                        if point_at(u, j) {
                            if j == l {
                                assert(u.take(j)[k] == p[k]);
                            } else {
                                assert(u.skip(j + 1)[l - j - 1] == ch);
                            }
                        }
                    }
                }
            }
        },
    }
}

proof fn lemma_scan_bounds(s: Seq<u8>)
    ensures
        scan(s) matches Some((n, f, dot, c)) ==> 0 <= n < pow10(c) && f <= c && pow10(f) <= pow10(c) && pow10(f) >= 1,
    decreases s.len(),
{
    if s.len() > 0 {
        lemma_scan_bounds(s.drop_last());
    }
}

proof fn lemma_scan_prefix(s: Seq<u8>, k: int)
    requires
        0 <= k <= s.len(),
    ensures
        scan(s.take(k)) is None ==> scan(s) is None,
        scan(s.take(k)) matches Some((n, f, dot, c)) ==> (scan(s) matches Some((n2, f2, dot2, c2))
            ==> c2 >= c),
    decreases s.len(),
{
    if k == s.len() {
        assert(s.take(k) =~= s);
    } else {
        assert(s.drop_last().take(k) =~= s.take(k));
        lemma_scan_prefix(s.drop_last(), k);
    }
}

/// The number that the characters `t` write, read as UTF-8 bytes.
pub open spec fn text_value(t: Seq<char>) -> Option<(int, int)> {
    decimal_value(encode_utf8(t))
}

/// Reads a decimal number `[+-]ddd[.ddd]` from text, with between one and `MAX_DIGITS`
/// digits; `None` when the text is not one. Exponents, spaces, `inf` and `NaN` are not
/// read. The result is `digits / 10^k`, `k` the digits after the point, not reduced.
pub fn parse_decimal(text: &str) -> (r: Option<Ratio>)
    ensures
        match text_value(text@) {
            Some((n, d)) => r matches Some(v) && v.num == n && v.den == d && v.well_formed(),
            None => r is None,
        },
{
    let b = text.as_bytes();
    let ghost s = b@;
    assert(s == text.spec_bytes());
    let len = b.len();
    let mut i: usize = 0;
    let mut neg = false;
    if len > 0 && (b[0] == 45u8 || b[0] == 43u8) {
        neg = b[0] == 45u8;
        i = 1;
    }
    let start = i;
    let ghost body = unsigned_part(s);
    assert(body =~= s.skip(start as int));
    let mut num: i128 = 0;
    let mut den: i128 = 1;
    let mut dot = false;
    let mut count: u64 = 0;
    let ghost mut f: nat = 0;
    assert(body.take(0) =~= Seq::<u8>::empty());
    proof {
        reveal_with_fuel(pow10, 19);
    }
    while i < len
        invariant
            b@ == s,
            s == text.spec_bytes(),
            len == s.len(),
            start <= i <= len,
            start == (if has_sign(s) { 1int } else { 0int }),
            body == s.skip(start as int),
            body == unsigned_part(s),
            neg == (has_sign(s) && s[0] == 45),
            count <= MAX_DIGITS,
            scan(body.take(i - start)) == Some((num as int, f, dot, count as nat)),
            den == pow10(f),
            pow10(MAX_DIGITS as nat) == 1000000000000000000,
        decreases len - i,
    {
        let c = b[i];
        let ghost pre = body.take(i - start);
        let ghost next = body.take(i + 1 - start);
        assert(next.drop_last() =~= pre);
        assert(next.last() == c);
        proof {
            lemma_scan_bounds(pre);
        }
        if 48u8 <= c && c <= 57u8 {
            assert(scan(next) == Some((num * 10 + (c - 48) as int, if dot { (f + 1) as nat } else { f }, dot, (count + 1) as nat)));
            if count == MAX_DIGITS {
                proof {
                    lemma_scan_prefix(body, i + 1 - start);
                    lemma_scan_parts(body);
                }
                return None;
            }
            proof {
                assert(num < pow10(count as nat));
                assert(pow10(count as nat) <= pow10(MAX_DIGITS as nat)) by {
                    lemma_pow10_mono(count as nat, MAX_DIGITS as nat);
                }
                assert(pow10(f) <= pow10(count as nat));
            }
            num = num * 10 + (c - 48) as i128;
            if dot {
                den = den * 10;
                proof {
                    f = f + 1;
                }
            }
            count = count + 1;
        } else if c == 46u8 && !dot {
            assert(scan(next) == Some((num as int, f, true, count as nat)));
            dot = true;
        } else {
            assert(scan(next) is None);
            proof {
                lemma_scan_prefix(body, i + 1 - start);
                lemma_scan_parts(body);
            }
            return None;
        }
        i = i + 1;
    }
    assert(body.take(len - start) =~= body);
    proof {
        lemma_scan_parts(body);
    }
    if count == 0 {
        return None;
    }
    proof {
        lemma_scan_bounds(body);
        assert(pow10(f) >= 1);
    }
    if neg {
        Some(Ratio { num: -num, den })
    } else {
        Some(Ratio { num, den })
    }
}

proof fn lemma_pow10_mono(a: nat, b: nat)
    requires
        a <= b,
    ensures
        1 <= pow10(a) <= pow10(b),
    decreases b,
{
    if a < b {
        lemma_pow10_mono(a, (b - 1) as nat);
    } else if a > 0 {
        lemma_pow10_mono((a - 1) as nat, (a - 1) as nat);
    }
}

} // verus!
