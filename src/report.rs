//! The end-of-run report: byte counts scaled to B/KB/MB/GB and the totals of
//! the records this run added.
use vstd::prelude::*;
use vstd::string::StringExecFns;
use crate::ledger::Log;

verus! {

/// The digit character of `d`.
pub open spec fn digit_char(d: nat) -> char {
    if d < 10 { (('0' as u32) + d) as char } else { '?' }
}

/// Decimal text of `n`, without leading zeros.
pub open spec fn decimal(n: nat) -> Seq<char>
    decreases n,
{
    if n < 10 {
        seq![digit_char(n)]
    } else {
        decimal(n / 10) + seq![digit_char(n % 10)]
    }
}

/// How many times a size is divided by 1024: while it stays above 1024,
/// at most three times.
pub open spec fn unit_steps(size: nat) -> nat {
    if size > 1024 * 1024 * 1024 {
        3
    } else if size > 1024 * 1024 {
        2
    } else if size > 1024 {
        1
    } else {
        0
    }
}

/// What a size is divided by for its unit.
pub open spec fn unit_divisor(steps: nat) -> nat {
    if steps == 0 {
        1
    } else if steps == 1 {
        1024
    } else if steps == 2 {
        1024 * 1024
    } else {
        1024 * 1024 * 1024
    }
}

/// The name of the unit reached after `steps` divisions.
pub open spec fn unit_name(steps: nat) -> Seq<char> {
    if steps == 0 {
        "B"@
    } else if steps == 1 {
        "KB"@
    } else if steps == 2 {
        "MB"@
    } else {
        "GB"@
    }
}

/// `n / d` rounded to the nearest integer, ties to even.
pub open spec fn round_div(n: nat, d: nat) -> nat
    recommends
        d > 0,
{
    let q = n / d;
    let r = n % d;
    if 2 * r > d || (2 * r == d && q % 2 == 1) {
        q + 1
    } else {
        q
    }
}

/// The size in hundredths of its unit.
pub open spec fn scaled_hundredths(size: nat) -> nat {
    round_div(size * 100, unit_divisor(unit_steps(size)))
}

/// The text of a size: its scaled value with two decimals, then its unit.
pub open spec fn filesize_text(size: nat) -> Seq<char> {
    let h = scaled_hundredths(size);
    decimal(h / 100) + seq![
        '.',
        digit_char((h % 100) / 10),
        digit_char(h % 10),
    ] + unit_name(unit_steps(size))
}

fn digit_str(d: u128) -> (r: &'static str)
    requires
        d < 10,
    ensures
        r@ == seq![digit_char(d as nat)],
{
    proof {
        reveal_strlit("0");
        reveal_strlit("1");
        reveal_strlit("2");
        reveal_strlit("3");
        reveal_strlit("4");
        reveal_strlit("5");
        reveal_strlit("6");
        reveal_strlit("7");
        reveal_strlit("8");
        reveal_strlit("9");
    }
    let r = if d == 0 {
        "0"
    } else if d == 1 {
        "1"
    } else if d == 2 {
        "2"
    } else if d == 3 {
        "3"
    } else if d == 4 {
        "4"
    } else if d == 5 {
        "5"
    } else if d == 6 {
        "6"
    } else if d == 7 {
        "7"
    } else if d == 8 {
        "8"
    } else {
        "9"
    };
    assert(r@ =~= seq![digit_char(d as nat)]);
    r
}

fn push_decimal(out: &mut String, n: u128)
    ensures
        final(out)@ == old(out)@ + decimal(n as nat),
    decreases n,
{
    if n >= 10 {
        push_decimal(out, n / 10);
    }
    out.append(digit_str(n % 10));
    assert(final(out)@ =~= old(out)@ + decimal(n as nat));
}

impl Log {
    /// Renders `size` bytes, scaled by 1024 while above 1024 (at most to GB),
    /// with two decimals rounded to nearest, ties to even.
    pub fn display_filesize(size: u128) -> (r: String)
        ensures
            r@ == filesize_text(size as nat),
    {
        let steps: u128 = if size > 1024 * 1024 * 1024 {
            3
        } else if size > 1024 * 1024 {
            2
        } else if size > 1024 {
            1
        } else {
            0
        };
        let d: u128 = if steps == 0 {
            1
        } else if steps == 1 {
            1024
        } else if steps == 2 {
            1024 * 1024
        } else {
            1024 * 1024 * 1024
        };
        assert(steps == unit_steps(size as nat) && d == unit_divisor(steps as nat));
        let q = size / d;
        let rem = size % d;
        let frac_q = rem * 100 / d;
        let frac_r = rem * 100 % d;
        proof {
            vstd::arithmetic::div_mod::lemma_fundamental_div_mod(size as int, d as int);
            vstd::arithmetic::div_mod::lemma_fundamental_div_mod((rem * 100) as int, d as int);
            assert(frac_q < 100) by (nonlinear_arith)
                requires
                    rem < d,
                    rem * 100 == d * frac_q + frac_r,
                    frac_r >= 0,
            ;
            assert(q * 100 + frac_q + 1 < 0x1_0000_0000_0000_0000_0000_0000_0000_0000) by (nonlinear_arith)
                requires
                    size == d * q + rem,
                    rem >= 0,
                    frac_q < 100,
                    d == 1 ==> size <= 1024,
                    d == 1 || d >= 1024,
                    size < 0x1_0000_0000_0000_0000_0000_0000_0000_0000,
            ;
            assert(size * 100 == (q * 100 + frac_q) * d + frac_r) by (nonlinear_arith)
                requires
                    size == d * q + rem,
                    rem * 100 == d * frac_q + frac_r,
            ;
            assert(q <= size) by (nonlinear_arith)
                requires
                    q == size / d,
                    d >= 1,
            ;
            assert(0 <= frac_r < d);
            vstd::arithmetic::div_mod::lemma_fundamental_div_mod_converse(
                (size * 100) as int,
                d as int,
                (q * 100 + frac_q) as int,
                frac_r as int,
            );
        }
        let base: u128 = q * 100 + frac_q;
        let h: u128 = if 2 * frac_r > d || (2 * frac_r == d && base % 2 == 1) {
            base + 1
        } else {
            base
        };
        assert(h == scaled_hundredths(size as nat));
        let mut out = String::new();
        push_decimal(&mut out, h / 100);
        out.append(".");
        out.append(digit_str((h % 100) / 10));
        out.append(digit_str(h % 10));
        let unit = if steps == 0 {
            "B"
        } else if steps == 1 {
            "KB"
        } else if steps == 2 {
            "MB"
        } else {
            "GB"
        };
        out.append(unit);
        proof {
            reveal_strlit(".");
        }
        assert(out@ =~= filesize_text(size as nat));
        out
    }
}

} // verus!
