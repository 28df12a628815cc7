use vstd::prelude::*;

use crate::text::{decimal, push_decimal, push_digit};

verus! {

// A size is shown the way a double-precision value of it prints: the byte
// count is rounded to 53 significant bits (ties to even), divided by 1024
// while it is at least 1024 (at most up to TB), and written with one decimal,
// rounded half to even.

/// `2^s`.
pub open spec fn p2(s: nat) -> int
    decreases s,
{
    if s == 0 {
        1
    } else {
        2 * p2((s - 1) as nat)
    }
}

/// How many low bits a number loses when held in 53 significant bits.
pub open spec fn excess_bits(b: int) -> nat
    decreases b,
{
    if b < 0x20_0000_0000_0000 {
        0
    } else {
        1 + excess_bits(b / 2)
    }
}

/// The value a byte count takes as a double: rounded to the nearest
/// multiple of `2^excess_bits`, ties to the even multiple.
pub open spec fn as_double(b: u64) -> int {
    let s = excess_bits(b as int);
    if s == 0 {
        b as int
    } else {
        let q = b as int / p2(s);
        let rem = b as int % p2(s);
        let half = p2((s - 1) as nat);
        if rem > half || (rem == half && q % 2 == 1) {
            (q + 1) * p2(s)
        } else {
            q * p2(s)
        }
    }
}

/// Index of the unit a value is shown in: B, KB, MB, GB, TB.
pub open spec fn unit_index(f: int) -> int {
    if f >= 1_099_511_627_776 {
        4
    } else if f >= 1_073_741_824 {
        3
    } else if f >= 1_048_576 {
        2
    } else if f >= 1024 {
        1
    } else {
        0
    }
}

pub open spec fn unit_divisor(i: int) -> int {
    if i == 4 {
        1_099_511_627_776
    } else if i == 3 {
        1_073_741_824
    } else if i == 2 {
        1_048_576
    } else if i == 1 {
        1024
    } else {
        1
    }
}

pub open spec fn unit_name(i: int) -> Seq<char> {
    if i == 4 {
        seq!['T', 'B']
    } else if i == 3 {
        seq!['G', 'B']
    } else if i == 2 {
        seq!['M', 'B']
    } else if i == 1 {
        seq!['K', 'B']
    } else {
        seq!['B']
    }
}

/// `f / d` in tenths, rounded half to even.
pub open spec fn rounded_tenths(f: int, d: int) -> int {
    let t = (10 * f) / d;
    let r = (10 * f) % d;
    if 2 * r > d || (2 * r == d && t % 2 == 1) {
        t + 1
    } else {
        t
    }
}

/// The text a byte count is shown as, such as `1.5 KB`.
pub open spec fn size_text(b: u64) -> Seq<char> {
    let f = as_double(b);
    let i = unit_index(f);
    let t = rounded_tenths(f, unit_divisor(i));
    decimal((t / 10) as nat) + seq!['.'] + decimal((t % 10) as nat) + seq![' '] + unit_name(i)
}

proof fn lemma_halve(b: int, s: nat)
    requires
        b >= 0,
    ensures
        (b / p2(s)) / 2 == b / p2(s + 1),
        p2(s) > 0,
{
    lemma_p2_pos(s);
    assert(p2(s + 1) == 2 * p2(s));
    vstd::arithmetic::div_mod::lemma_div_denominator(b, p2(s), 2);
    assert(p2(s) * 2 == p2(s + 1)) by (nonlinear_arith)
        requires
            p2(s + 1) == 2 * p2(s),
    ;
}

proof fn lemma_p2_bounds(s: nat)
    ensures
        p2(s) < 0x800 ==> s <= 10,
        s <= 11 ==> p2(s) <= 0x800,
{
    reveal_with_fuel(p2, 12);
    lemma_p2_mono(s, 11);
    lemma_p2_mono(11, s);
}

proof fn lemma_p2_mono(a: nat, b: nat)
    ensures
        a <= b ==> p2(a) <= p2(b),
    decreases b,
{
    if a < b {
        lemma_p2_mono(a, (b - 1) as nat);
        lemma_p2_pos((b - 1) as nat);
    }
}

proof fn lemma_p2_pos(s: nat)
    ensures
        p2(s) > 0,
    decreases s,
{
    if s > 0 {
        lemma_p2_pos((s - 1) as nat);
    }
}

/// The double value of a byte count (see `as_double`).
fn double_value(b: u64) -> (f: u128)
    ensures
        f == as_double(b),
        f <= 0x1_0000_0000_0000_0000,
{
    let mut q: u64 = b;
    let mut s: u64 = 0;
    let mut pw: u64 = 1;
    proof {
        assert(b as int / p2(0) == b as int);
    }
    while q >= 0x20_0000_0000_0000
        invariant
            q as int == b as int / p2(s as nat),
            pw as int == p2(s as nat),
            excess_bits(b as int) == s + excess_bits(q as int),
            s <= 11,
            q as int * pw as int <= b,
            q >= 0x20_0000_0000_0000 ==> pw < 0x800,
            pw <= 0x800,
            pw > 0,
        decreases q,
    {
        proof {
            lemma_p2_bounds(s as nat);
            lemma_halve(b as int, s as nat);
            assert(q as int * pw as int <= b);
            assert(q as int * pw as int >= 0x20_0000_0000_0000 * pw as int) by (nonlinear_arith)
                requires
                    q >= 0x20_0000_0000_0000,
                    pw > 0,
            ;
        }
        q = q / 2;
        pw = pw * 2;
        s = s + 1;
        proof {
            assert(p2(s as nat) == 2 * p2((s - 1) as nat));
            assert((q as int) * (pw as int) <= b) by (nonlinear_arith)
                requires
                    q == (b as int / p2((s - 1) as nat)) / 2,
                    pw == 2 * p2((s - 1) as nat),
                    (b as int / p2((s - 1) as nat)) * p2((s - 1) as nat) <= b,
                    p2((s - 1) as nat) > 0,
            ;
            lemma_p2_bounds(s as nat);
            if q >= 0x20_0000_0000_0000 {
                assert(q as int * pw as int >= 0x20_0000_0000_0000 * pw as int) by (nonlinear_arith)
                    requires
                        q >= 0x20_0000_0000_0000,
                        pw > 0,
                ;
            }
        }
    }
    if s == 0 {
        return b as u128;
    }
    let rem: u64 = b - q * pw;
    let half: u64 = pw / 2;
    proof {
        vstd::arithmetic::div_mod::lemma_fundamental_div_mod(b as int, pw as int);
        assert(rem as int == b as int % p2(s as nat));
        assert(p2(s as nat) == 2 * p2((s - 1) as nat));
        assert(half as int == p2((s - 1) as nat));
    }
    let up = rem > half || (rem == half && q % 2 == 1);
    proof {
        assert((q as int + 1) * pw as int <= 0x1_0000_0000_0000_0000) by (nonlinear_arith)
            requires
                q < 0x20_0000_0000_0000,
                pw <= 0x800,
        ;
        assert(q as int * pw as int <= (q as int + 1) * pw as int) by (nonlinear_arith)
            requires
                pw > 0,
        ;
    }
    let f: u128 = if up {
        (q as u128 + 1) * (pw as u128)
    } else {
        (q as u128) * (pw as u128)
    };
    proof {
        assert(q < 0x20_0000_0000_0000);
        assert((q as int + 1) * pw as int <= 0x1_0000_0000_0000_0000) by (nonlinear_arith)
            requires
                q < 0x20_0000_0000_0000,
                pw <= 0x800,
        ;
        assert(q as int * pw as int <= (q as int + 1) * pw as int) by (nonlinear_arith)
            requires
                pw > 0,
        ;
    }
    f
}

/// The text a byte count is shown as: its value in the largest unit that
/// leaves it at least 1 (up to TB), with one decimal, and the unit.
pub fn format_size(bytes: u64) -> (r: String)
    ensures
        r@ == size_text(bytes),
{
    let f = double_value(bytes);
    let ui: u8 = if f >= 1_099_511_627_776 {
        4
    } else if f >= 1_073_741_824 {
        3
    } else if f >= 1_048_576 {
        2
    } else if f >= 1024 {
        1
    } else {
        0
    };
    let d: u128 = if ui == 4 {
        1_099_511_627_776
    } else if ui == 3 {
        1_073_741_824
    } else if ui == 2 {
        1_048_576
    } else if ui == 1 {
        1024
    } else {
        1
    };
    let ghost i = unit_index(f as int);
    assert(ui == i);
    assert(d as int == unit_divisor(i));
    let x: u128 = 10 * f;
    let t0: u128 = x / d;
    let r: u128 = x % d;
    let t: u128 = if 2 * r > d || (2 * r == d && t0 % 2 == 1) {
        t0 + 1
    } else {
        t0
    };
    assert(t as int == rounded_tenths(f as int, d as int));
    proof {
        assert(t0 <= x);
        if d > 1 {
            assert(t0 as int <= x as int / 1024) by {
                vstd::arithmetic::div_mod::lemma_div_is_ordered_by_denominator(x as int, 1024, d as int);
            }
        } else {
            assert(f < 1024);
        }
    }
    let whole: u64 = (t / 10) as u64;
    let tenth: u64 = (t % 10) as u64;
    let mut s = String::new();
    push_decimal(&mut s, whole);
    s.append(".");
    push_digit(&mut s, tenth);
    s.append(" ");
    proof {
        reveal_strlit(".");
        reveal_strlit(" ");
        reveal_strlit("B");
        reveal_strlit("KB");
        reveal_strlit("MB");
        reveal_strlit("GB");
        reveal_strlit("TB");
        assert(decimal(tenth as nat) == seq![crate::text::digit_char(tenth as int)]);
    }
    if ui == 4 {
        s.append("TB");
    } else if ui == 3 {
        s.append("GB");
    } else if ui == 2 {
        s.append("MB");
    } else if ui == 1 {
        s.append("KB");
    } else {
        s.append("B");
    }
    proof {
        assert(s@ =~= size_text(bytes));
    }
    s
}

} // verus!
