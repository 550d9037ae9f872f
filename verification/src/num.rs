//! Decimal rendering of counters and of fixed-point scalars.
//!
//! A scalar is an `i64` counting ten-thousandths: `15000` stands for `1.5`.
//! Rendering writes the integer part, and a fractional part only when it is
//! non-zero, with trailing zeros trimmed, as in `1.5`, `-0.25` or `12`.

use vstd::prelude::*;
use vstd::string::StringExecFns;

verus! {

/// Number of fixed-point units per whole unit.
pub const SCALE: u64 = 10000;

/// The decimal digit character for `d` (only the ten digits are meaningful).
pub open spec fn digit_char(d: nat) -> char {
    if d == 0 {
        '0'
    } else if d == 1 {
        '1'
    } else if d == 2 {
        '2'
    } else if d == 3 {
        '3'
    } else if d == 4 {
        '4'
    } else if d == 5 {
        '5'
    } else if d == 6 {
        '6'
    } else if d == 7 {
        '7'
    } else if d == 8 {
        '8'
    } else {
        '9'
    }
}

/// The decimal digit string of `n`, most significant digit first.
pub open spec fn dec_digits(n: nat) -> Seq<char>
    decreases n,
{
    if n < 10 {
        seq![digit_char(n)]
    } else {
        dec_digits(n / 10) + seq![digit_char(n % 10)]
    }
}

/// Magnitude of an integer, as a natural number.
pub open spec fn iabs(v: int) -> nat {
    if v >= 0 {
        v as nat
    } else {
        (-v) as nat
    }
}

/// The four zero-padded decimal digits of a fractional part below `SCALE`.
pub open spec fn pad4(f: nat) -> Seq<char> {
    seq![
        digit_char(f / 1000 % 10),
        digit_char(f / 100 % 10),
        digit_char(f / 10 % 10),
        digit_char(f % 10),
    ]
}

/// `s` with every trailing `'0'` removed.
pub open spec fn trim_zeros(s: Seq<char>) -> Seq<char>
    decreases s.len(),
{
    if s.len() > 0 && s.last() == '0' {
        trim_zeros(s.drop_last())
    } else {
        s
    }
}

/// The decimal rendering of the fixed-point scalar `v`.
pub open spec fn scalar_digits(v: int) -> Seq<char> {
    let m = iabs(v);
    let whole = dec_digits(m / (SCALE as nat));
    let frac = m % (SCALE as nat);
    let mag = if frac == 0 {
        whole
    } else {
        whole + seq!['.'] + trim_zeros(pad4(frac))
    };
    if v < 0 {
        seq!['-'] + mag
    } else {
        mag
    }
}

/// Distinct digits render as distinct characters.
pub proof fn lemma_digit_char_injective(a: nat, b: nat)
    requires
        a < 10,
        b < 10,
        digit_char(a) == digit_char(b),
    ensures
        a == b,
{
}

/// Every decimal digit string is non-empty.
pub proof fn lemma_dec_digits_len(n: nat)
    ensures
        dec_digits(n).len() >= 1,
    decreases n,
{
    if n >= 10 {
        lemma_dec_digits_len(n / 10);
    }
}

/// Distinct natural numbers render as distinct digit strings.
pub proof fn lemma_dec_digits_injective(a: nat, b: nat)
    requires
        dec_digits(a) == dec_digits(b),
    ensures
        a == b,
    decreases a,
{
    lemma_dec_digits_len(a);
    lemma_dec_digits_len(b);
    if a < 10 && b < 10 {
        assert(seq![digit_char(a)][0] == seq![digit_char(b)][0]);
        assert(digit_char(a) == digit_char(b));
        lemma_digit_char_injective(a, b);
    } else if a < 10 {
        lemma_dec_digits_len(b / 10);
        assert(dec_digits(b).len() >= 2);
    } else if b < 10 {
        lemma_dec_digits_len(a / 10);
        assert(dec_digits(a).len() >= 2);
    } else {
        let sa = dec_digits(a / 10);
        let sb = dec_digits(b / 10);
        assert(dec_digits(a).last() == digit_char(a % 10));
        assert(dec_digits(b).last() == digit_char(b % 10));
        lemma_digit_char_injective(a % 10, b % 10);
        assert(sa =~= dec_digits(a).drop_last());
        assert(sb =~= dec_digits(b).drop_last());
        lemma_dec_digits_injective(a / 10, b / 10);
        assert(a == 10 * (a / 10) + a % 10);
        assert(b == 10 * (b / 10) + b % 10);
    }
}

/// The digit string `d`, for a single decimal digit.
pub fn digit_str(d: u64) -> (r: &'static str)
    requires
        d < 10,
    ensures
        r@ == dec_digits(d as nat),
{
    let s: &'static str = if d == 0 {
        "0"
    } else if d == 1 {
        "1"
    } else if d == 2 {
        "2"
    } else if d == 3 {
        "3"
    } else if d == 4 {
        "4"
    } else if d == 5 {
        "5"
    } else if d == 6 {
        "6"
    } else if d == 7 {
        "7"
    } else if d == 8 {
        "8"
    } else {
        "9"
    };
    proof {
        reveal_strlit("0");
        reveal_strlit("1");
        reveal_strlit("2");
        reveal_strlit("3");
        reveal_strlit("4");
        reveal_strlit("5");
        reveal_strlit("6");
        reveal_strlit("7");
        reveal_strlit("8");
        reveal_strlit("9");
        assert(s@ =~= dec_digits(d as nat));
    }
    s
}

/// Renders `n` in decimal.
pub fn u64_to_dec(n: u64) -> (r: String)
    ensures
        r@ == dec_digits(n as nat),
    decreases n,
{
    if n < 10 {
        String::from_str(digit_str(n))
    } else {
        let mut s = u64_to_dec(n / 10);
        s.append(digit_str(n % 10));
        proof {
            assert(s@ =~= dec_digits(n as nat));
        }
        s
    }
}

/// Renders the fixed-point scalar `v` in decimal.
pub fn scalar_to_dec(v: i64) -> (r: String)
    ensures
        r@ == scalar_digits(v as int),
{
    let m: u64 = if v >= 0 {
        v as u64
    } else {
        (-(v as i128)) as u64
    };
    proof {
        assert(m as nat == iabs(v as int));
    }
    let q = m / SCALE;
    let f = m % SCALE;
    let mut s = String::new();
    if v < 0 {
        s.append("-");
        proof {
            reveal_strlit("-");
            assert(s@ =~= seq!['-']);
        }
    }
    let whole = u64_to_dec(q);
    s.append(whole.as_str());
    if f > 0 {
        s.append(".");
        proof {
            reveal_strlit(".");
        }
        let d1 = digit_str(f / 1000 % 10);
        let d2 = digit_str(f / 100 % 10);
        let d3 = digit_str(f / 10 % 10);
        let d4 = digit_str(f % 10);
        s.append(d1);
        if f % 1000 != 0 {
            s.append(d2);
            if f % 100 != 0 {
                s.append(d3);
                if f % 10 != 0 {
                    s.append(d4);
                }
            }
        }
        proof {
            lemma_trimmed_frac(f as nat);
            assert(s@ =~= scalar_digits(v as int));
        }
    } else {
        proof {
            assert(s@ =~= scalar_digits(v as int));
        }
    }
    s
}

/// Relates the trimmed fractional digits to the digits that remain after
/// cutting at the last non-zero digit.
proof fn lemma_trimmed_frac(f: nat)
    requires
        0 < f < SCALE,
    ensures
        f % 10 != 0 ==> trim_zeros(pad4(f)) == pad4(f),
        f % 10 == 0 && f % 100 != 0 ==> trim_zeros(pad4(f)) =~= pad4(f).take(3),
        f % 100 == 0 && f % 1000 != 0 ==> trim_zeros(pad4(f)) =~= pad4(f).take(2),
        f % 1000 == 0 ==> trim_zeros(pad4(f)) =~= pad4(f).take(1),
{
    let p = pad4(f);
    assert(p.len() == 4);
    if f % 10 != 0 {
        assert(p.last() == digit_char(f % 10));
        assert(p.last() != '0');
    } else {
        assert(p.last() == '0');
        let p3 = p.drop_last();
        assert(trim_zeros(p) == trim_zeros(p3));
        assert(p3 =~= pad4(f).take(3));
        if f % 100 != 0 {
            assert(f / 10 % 10 != 0) by {
                assert(f % 100 == (f % 100 % 10) + 10 * (f % 100 / 10)) by (nonlinear_arith);
                assert(f % 100 % 10 == f % 10) by (nonlinear_arith);
                assert(f % 100 / 10 == f / 10 % 10) by (nonlinear_arith);
            }
            assert(p3.last() == digit_char(f / 10 % 10));
            assert(p3.last() != '0');
        } else {
            assert(f / 10 % 10 == 0) by (nonlinear_arith)
                requires f % 100 == 0;
            assert(p3.last() == '0');
            let p2 = p3.drop_last();
            assert(trim_zeros(p3) == trim_zeros(p2));
            assert(p2 =~= pad4(f).take(2));
            if f % 1000 != 0 {
                assert(f / 100 % 10 != 0) by (nonlinear_arith)
                    requires f % 100 == 0, f % 1000 != 0;
                assert(p2.last() != '0');
            } else {
                assert(f / 100 % 10 == 0) by (nonlinear_arith)
                    requires f % 1000 == 0;
                assert(p2.last() == '0');
                let p1 = p2.drop_last();
                assert(trim_zeros(p2) == trim_zeros(p1));
                assert(p1 =~= pad4(f).take(1));
                assert(f / 1000 % 10 != 0) by (nonlinear_arith)
                    requires f % 1000 == 0, 0 < f < 10000;
                assert(p1.last() != '0');
            }
        }
    }
}

} // verus!
