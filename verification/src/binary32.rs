//! Float literals read as IEEE-754 binary32 bit patterns.
//!
//! The language stores a float literal only as its raw 32-bit pattern; no
//! floating-point instruction ever touches it. This module computes that
//! pattern with integer arithmetic alone: the literal's digits are read as a
//! scaled integer `n / 10^f`, the quotient `n * 2^64 / 10^f` is taken exactly
//! in 128 bits — redone at `n * 2^96 / 10^f` when it carries fewer than 25
//! significant bits, so that rounding always sees real bits of the fraction
//! — and the result is rounded to nearest, ties to even, with a sticky bit
//! for the discarded remainder. Within the stated window — at most 19
//! digits of `n` (19 significant digits) and at most 18 digits after the
//! point — the pattern is exactly the nearest binary32 value. A literal
//! outside that window, or one that is not an optional sign followed by
//! digits with at most one point, yields nothing, and the caller reports
//! the literal as unreadable: the window is a stated bound of this
//! compiler, not a rounding shortcut.

use vstd::prelude::*;

use crate::chars::is_digit;
use crate::chars::digit_char;

verus! {

/// `a - b`, clamped at zero.
pub open spec fn gap(a: int, b: int) -> nat {
    if a - b >= 0 {
        (a - b) as nat
    } else {
        0
    }
}

/// `10^f`.
pub open spec fn pow10(f: int) -> int
    decreases f,
{
    if f <= 0 {
        1
    } else {
        10 * pow10(f - 1)
    }
}

/// `2^k`.
pub open spec fn pw2(k: int) -> int
    decreases k,
{
    if k <= 0 {
        1
    } else {
        2 * pw2(k - 1)
    }
}

/// Reads the digits of a literal from position `i` on: the accumulated
/// significand `n`, and the count `f` of digits after the point. Nothing if a
/// character is neither digit nor a first point, if no digit occurs at all,
/// or if the literal leaves the exact window.
pub open spec fn fscan(s: Seq<char>, i: int, dot: bool, n: int, f: int, any: bool) -> Option<
    (int, int),
>
    decreases gap(s.len() as int, i),
{
    if !(0 <= i && i < s.len()) {
        if any {
            Some((n, f))
        } else {
            None
        }
    } else {
        let c = s[i];
        if is_digit(c) {
            if n > 1844674407370955160 {
                None
            } else if dot && f >= 18 {
                None
            } else {
                fscan(s, i + 1, dot, n * 10 + (c as u32 - 48), if dot {
                    f + 1
                } else {
                    f
                }, true)
            }
        } else if c == '.' && !dot {
            fscan(s, i + 1, true, n, f, any)
        } else {
            None
        }
    }
}

/// Halves `q`, keeping a sticky bit, until it fits in 25 bits.
pub open spec fn shrink(q: int, e: int, st: bool) -> (int, int, bool)
    decreases q,
{
    if q >= 33554432 {
        shrink(q / 2, e + 1, st || q % 2 == 1)
    } else {
        (q, e, st)
    }
}

/// Doubles `q` until its top bit is bit 24.
pub open spec fn grow(q: int, e: int) -> (int, int)
    decreases gap(16777216, q),
{
    if 0 < q && q < 16777216 {
        grow(q * 2, e - 1)
    } else {
        (q, e)
    }
}

/// Halves `q`, keeping a sticky bit, until the value is representable with
/// the minimum exponent: the subnormal range.
pub open spec fn squeeze(q: int, e: int, st: bool) -> (int, int, bool)
    decreases gap(-150, e),
{
    if e < -150 {
        squeeze(q / 2, e + 1, st || q % 2 == 1)
    } else {
        (q, e, st)
    }
}

/// The binary32 pattern of the positive value `q * 2^e` (`q` in 25 bits with
/// its lowest bit the round bit), rounded to nearest, ties to even, plus the
/// sign bit.
pub open spec fn assemble(q: int, e: int, st: bool, sign: u32) -> u32 {
    let rb = q % 2;
    let m = q / 2;
    let mr = if rb == 1 && (st || m % 2 == 1) {
        m + 1
    } else {
        m
    };
    let m2 = if mr == 16777216 {
        8388608
    } else {
        mr
    };
    let ebits = if mr == 16777216 {
        e + 25 + 127
    } else {
        e + 24 + 127
    };
    if m2 < 8388608 {
        (sign | m2 as u32) as u32
    } else if ebits > 254 {
        (sign | 0x7f800000) as u32
    } else {
        (sign | ((ebits as u32) << 23u32) | ((m2 - 8388608) as u32)) as u32
    }
}

/// The binary32 bit pattern a float literal denotes, or nothing when the
/// literal is malformed or outside the exact window. When the first
/// quotient carries fewer than 25 significant bits — a small value over a
/// large power of ten — the division is redone at a further factor of
/// `2^32`, so the rounding always sees real bits of the fraction.
#[verifier::opaque]
pub open spec fn spec_binary32(s: Seq<char>) -> Option<u32> {
    let neg = s.len() > 0 && s[0] == '-';
    let signed = s.len() > 0 && (s[0] == '-' || s[0] == '+');
    let sign: u32 = if neg {
        0x80000000
    } else {
        0
    };
    let start: int = if signed {
        1
    } else {
        0
    };
    match fscan(s, start, false, 0, 0, false) {
        None => None,
        Some((n, f)) => {
            if n == 0 {
                Some(sign)
            } else {
                let den = pow10(f);
                let q64 = (n * 0x10000000000000000) / den;
                let scaled = if q64 < 33554432 {
                    (
                        (n * 0x1000000000000000000000000) / den,
                        (n * 0x1000000000000000000000000) % den != 0,
                        -96,
                    )
                } else {
                    (q64, (n * 0x10000000000000000) % den != 0, -64)
                };
                let s1 = shrink(scaled.0, scaled.2, scaled.1);
                let g = grow(s1.0, s1.1);
                let z = squeeze(g.0, g.1, s1.2);
                Some(assemble(z.0, z.1, z.2, sign))
            }
        },
    }
}

proof fn lemma_pow10_pos(f: int)
    ensures
        pow10(f) >= 1,
    decreases f,
{
    if f > 0 {
        lemma_pow10_pos(f - 1);
    }
}

proof fn lemma_pow10_mono(a: int, b: int)
    requires
        a <= b,
    ensures
        pow10(a) <= pow10(b),
    decreases b - a,
{
    if a < b {
        lemma_pow10_mono(a, b - 1);
        lemma_pow10_pos(b - 1);
    }
}

proof fn lemma_pow10_18()
    ensures
        pow10(18) == 1000000000000000000,
{
    reveal_with_fuel(pow10, 20);
}

proof fn lemma_pw2_128()
    ensures
        pw2(128) == 0x100000000000000000000000000000000,
{
    reveal_with_fuel(pw2, 65);
    assert(pw2(64) == 0x10000000000000000);
    lemma_pw2_split(64, 64);
}

proof fn lemma_pw2_split(a: int, b: int)
    requires
        0 <= a,
        0 <= b,
    ensures
        pw2(a + b) == pw2(a) * pw2(b),
    decreases b,
{
    if b > 0 {
        lemma_pw2_split(a, b - 1);
        assert(2 * (pw2(a) * pw2(b - 1)) == pw2(a) * (2 * pw2(b - 1))) by (nonlinear_arith);
    }
}

proof fn lemma_pw2_pos(k: int)
    ensures
        pw2(k) >= 1,
    decreases k,
{
    if k > 0 {
        lemma_pw2_pos(k - 1);
    }
}

/// `shrink` never lowers the exponent, keeps the significand positive, and
/// ends below 25 bits.
proof fn lemma_shrink_simple(q: int, e: int, st: bool)
    ensures
        shrink(q, e, st).1 >= e,
        q >= 1 ==> shrink(q, e, st).0 >= 1,
        shrink(q, e, st).0 < 33554432 || shrink(q, e, st).0 == q,
        shrink(q, e, st).0 <= if q < 33554432 {
            q
        } else {
            33554431
        },
    decreases q,
{
    if q >= 33554432 {
        lemma_shrink_simple(q / 2, e + 1, st || q % 2 == 1);
    }
}

/// With `q` below `2^b`, `shrink` raises the exponent by at most `b - 25`.
proof fn lemma_shrink_upper(q: int, e: int, st: bool, b: int)
    requires
        25 <= b,
        q < pw2(b),
    ensures
        shrink(q, e, st).1 <= e + b - 25,
    decreases q,
{
    if q >= 33554432 {
        assert(pw2(b) == 2 * pw2(b - 1));
        if b - 1 < 25 {
            assert(pw2(25) == 33554432) by {
                reveal_with_fuel(pw2, 26);
            }
            lemma_pw2_mono(b, 25);
            assert(false);
        } else {
            lemma_shrink_upper(q / 2, e + 1, st || q % 2 == 1, b - 1);
        }
    }
}

proof fn lemma_pw2_mono(a: int, b: int)
    requires
        a <= b,
    ensures
        pw2(a) <= pw2(b),
    decreases b - a,
{
    if a < b {
        lemma_pw2_mono(a, b - 1);
        lemma_pw2_pos(b - 1);
    }
}

/// `grow` never raises the exponent, and with `2^b <= q` it lowers it by at
/// most `24 - b`; the significand stays below 25 bits.
proof fn lemma_grow_simple(q: int, e: int)
    ensures
        grow(q, e).1 <= e,
        q < 33554432 ==> grow(q, e).0 < 33554432,
        q >= 1 ==> grow(q, e).0 >= 1,
    decreases gap(16777216, q),
{
    if 0 < q && q < 16777216 {
        lemma_grow_simple(q * 2, e - 1);
    }
}

proof fn lemma_grow_lower(q: int, e: int, b: int)
    requires
        0 <= b <= 24,
        pw2(b) <= q,
    ensures
        grow(q, e).1 >= e - 24 + b,
    decreases 24 - b,
{
    if 0 < q && q < 16777216 {
        if b == 24 {
            assert(pw2(24) == 16777216) by {
                reveal_with_fuel(pw2, 25);
            }
            assert(false);
        } else {
            assert(pw2(b + 1) == 2 * pw2(b));
            lemma_grow_lower(q * 2, e - 1, b + 1);
        }
    }
}

/// Reads a float literal's binary32 bit pattern, exactly as
/// [`spec_binary32`] defines it.
#[verifier::loop_isolation(false)]
pub fn binary32_bits(s: &Vec<char>) -> (r: Option<u32>)
    ensures
        r == spec_binary32(s@),
{
    proof {
        reveal(spec_binary32);
    }
    let len = s.len();
    let neg = len > 0 && s[0] == '-';
    let signed = len > 0 && (s[0] == '-' || s[0] == '+');
    let sign: u32 = if neg {
        0x80000000
    } else {
        0
    };
    let start: usize = if signed {
        1
    } else {
        0
    };

    let mut n: u64 = 0;
    let mut f: u32 = 0;
    let mut dot = false;
    let mut any = false;
    let mut k: usize = start;
    while k < len
        invariant
            start <= k <= len,
            len == s@.len(),
            0 <= f <= 18,
            fscan(s@, start as int, false, 0, 0, false) == fscan(
                s@,
                k as int,
                dot,
                n as int,
                f as int,
                any,
            ),
        decreases len - k,
    {
        let c = s[k];
        if digit_char(c) {
            if n > 1844674407370955160 {
                return None;
            }
            if dot && f >= 18 {
                return None;
            }
            n = n * 10 + (c as u32 - 48) as u64;
            if dot {
                f = f + 1;
            }
            any = true;
        } else if c == '.' && !dot {
            dot = true;
        } else {
            return None;
        }
        k += 1;
    }

    if !any {
        return None;
    }
    if n == 0 {
        return Some(sign);
    }

    // den = 10^f, exactly.
    let mut den: u64 = 1;
    let mut t: u32 = 0;
    while t < f
        invariant
            0 <= t <= f <= 18,
            den as int == pow10(t as int),
            1 <= den <= 1000000000000000000,
        decreases f - t,
    {
        proof {
            lemma_pow10_mono(t as int + 1, 18);
            lemma_pow10_18();
            lemma_pow10_pos(t as int);
        }
        den = den * 10;
        t += 1;
    }

    // q = n * 2^64 / den, with the remainder folded into the sticky bit.
    let wide: u128 = (n as u128) * 0x10000000000000000u128;
    let mut q: u128 = wide / (den as u128);
    let mut st: bool = wide % (den as u128) != 0;
    let mut e: i32 = -64;

    if q < 33554432 {
        // Fewer than 25 significant bits: rescale by a further 2^32 so that
        // rounding sees real bits of the fraction, not shifted-in zeros.
        proof {
            let wi = wide as int;
            let de = den as int;
            let qq = q as int;
            assert(wi < de * (qq + 1)) by (nonlinear_arith)
                requires
                    de > 0,
                    wi >= 0,
                    qq == wi / de,
            ;
            assert(wi < 33554432000000000000000000) by (nonlinear_arith)
                requires
                    wi < de * (qq + 1),
                    0 < de <= 1000000000000000000,
                    0 <= qq,
                    qq + 1 <= 33554432,
            ;
            assert((n as int) < 4194304) by (nonlinear_arith)
                requires
                    wi == (n as int) * 0x10000000000000000,
                    wi < 33554432000000000000000000,
                    n >= 0,
            ;
        }
        let wide2: u128 = (n as u128) * 0x1000000000000000000000000u128;
        q = wide2 / (den as u128);
        st = wide2 % (den as u128) != 0;
        e = -96;
    }

    let ghost q0: int = q as int;
    let ghost e0: int = e as int;
    let ghost st0: bool = st;
    let ghost sfin: (int, int, bool) = shrink(q0, e0, st0);
    proof {
        lemma_pw2_128();
        lemma_shrink_simple(q0, e0, st0);
        lemma_shrink_upper(q0, e0, st0, 128);
    }

    while q >= 33554432
        invariant
            shrink(q as int, e as int, st) == sfin,
            -96 <= e <= 39,
        decreases q,
    {
        proof {
            lemma_shrink_simple(q as int / 2, e as int + 1, st || q as int % 2 == 1);
        }
        st = st || (q % 2 == 1);
        q = q / 2;
        e = e + 1;
    }
    proof {
        assert((q as int, e as int, st) == sfin);
    }

    let ghost gfin: (int, int) = grow(sfin.0, sfin.1);
    proof {
        lemma_grow_simple(sfin.0, sfin.1);
        if sfin.0 >= 1 {
            lemma_pw2_pos(0);
            lemma_grow_lower(sfin.0, sfin.1, 0);
        }
    }

    while 0 < q && q < 16777216
        invariant
            q < 33554432,
            grow(q as int, e as int) == gfin,
            st == sfin.2,
            gfin.1 <= e <= 39,
        decreases gap(16777216, q as int),
    {
        proof {
            lemma_grow_simple(q as int * 2, e as int - 1);
        }
        q = q * 2;
        e = e - 1;
    }
    proof {
        assert((q as int, e as int) == gfin);
    }

    let ghost zfin: (int, int, bool) = squeeze(gfin.0, gfin.1, sfin.2);

    while e < -150
        invariant
            q < 33554432,
            squeeze(q as int, e as int, st) == zfin,
            gfin.1 <= e,
            e <= 39 || e <= -150,
        decreases -150 - e,
    {
        st = st || (q % 2 == 1);
        q = q / 2;
        e = e + 1;
    }
    proof {
        assert((q as int, e as int, st) == zfin);
    }

    // Split off the round bit, round to nearest (ties to even), and encode.
    let q32: u32 = q as u32;
    let rb: u32 = q32 % 2;
    let m: u32 = q32 / 2;
    let mr: u32 = if rb == 1 && (st || m % 2 == 1) {
        m + 1
    } else {
        m
    };
    let m2: u32 = if mr == 16777216 {
        8388608
    } else {
        mr
    };
    let eb: i32 = if mr == 16777216 {
        e + 25 + 127
    } else {
        e + 24 + 127
    };
    if m2 < 8388608 {
        Some(sign | m2)
    } else if eb > 254 {
        Some(sign | 0x7f800000)
    } else {
        Some(sign | ((eb as u32) << 23u32) | (m2 - 8388608))
    }
}

} // verus!
