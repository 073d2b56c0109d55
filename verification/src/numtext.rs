//! Decimal text read as numbers, and numbers written as decimal text.

use vstd::prelude::*;

use crate::chars::chars_to_string;
use crate::chars::is_digit;
use crate::chars::digit_char;

verus! {

/// The value of a digit string read as a decimal number.
pub open spec fn dec_val(s: Seq<char>) -> int
    decreases s.len(),
{
    if s.len() == 0 {
        0
    } else {
        dec_val(s.drop_last()) * 10 + (s.last() as u32 - 48)
    }
}

/// Whether every character is an ASCII digit.
pub open spec fn all_digits(s: Seq<char>) -> bool {
    forall|k: int| 0 <= k < s.len() ==> is_digit(s[k])
}

/// The signed 32-bit integer a string denotes: an optional sign, then one or
/// more digits, with the value in range; anything else reads as nothing.
pub open spec fn spec_parse_i32(s: Seq<char>) -> Option<i32> {
    let neg = s.len() > 0 && s[0] == '-';
    let signed = s.len() > 0 && (s[0] == '-' || s[0] == '+');
    let ds = if signed {
        s.skip(1)
    } else {
        s
    };
    if ds.len() == 0 || !all_digits(ds) {
        None
    } else {
        let v = if neg {
            -dec_val(ds)
        } else {
            dec_val(ds)
        };
        if i32::MIN <= v <= i32::MAX {
            Some(v as i32)
        } else {
            None
        }
    }
}

proof fn lemma_dec_val_nonneg(s: Seq<char>)
    requires
        all_digits(s),
    ensures
        dec_val(s) >= 0,
    decreases s.len(),
{
    if s.len() > 0 {
        assert(all_digits(s.drop_last())) by {
            assert(forall|k: int|
                0 <= k < s.len() - 1 ==> s.drop_last()[k] == s[k] && is_digit(s[k]));
        }
        lemma_dec_val_nonneg(s.drop_last());
        assert(is_digit(s.last()));
    }
}

proof fn lemma_dec_val_take_step(s: Seq<char>, k: int)
    requires
        0 <= k < s.len(),
    ensures
        dec_val(s.take(k + 1)) == dec_val(s.take(k)) * 10 + (s[k] as u32 - 48),
{
    assert(s.take(k + 1).drop_last() =~= s.take(k));
    assert(s.take(k + 1).last() == s[k]);
}

proof fn lemma_dec_val_grows(s: Seq<char>, k: int)
    requires
        all_digits(s),
        0 <= k <= s.len(),
    ensures
        dec_val(s) >= dec_val(s.take(k)),
    decreases s.len() - k,
{
    if k < s.len() {
        lemma_dec_val_take_step(s, k);
        assert(all_digits(s.take(k))) by {
            assert(forall|j: int| 0 <= j < k ==> s.take(k)[j] == s[j] && is_digit(s[j]));
        }
        lemma_dec_val_nonneg(s.take(k));
        assert(is_digit(s[k]));
        assert(dec_val(s.take(k + 1)) >= dec_val(s.take(k)));
        lemma_dec_val_grows(s, k + 1);
        assert(s.take(s.len() as int) =~= s);
    } else {
        assert(s.take(k) =~= s);
    }
}

/// Reads a signed 32-bit integer from text, exactly as [`spec_parse_i32`]
/// defines it.
#[verifier::loop_isolation(false)]
pub fn parse_i32_chars(s: &Vec<char>) -> (r: Option<i32>)
    ensures
        r == spec_parse_i32(s@),
{
    let n = s.len();
    let neg = n > 0 && s[0] == '-';
    let signed = n > 0 && (s[0] == '-' || s[0] == '+');
    let start: usize = if signed {
        1
    } else {
        0
    };
    let ghost ds: Seq<char> = if signed {
        s@.skip(1)
    } else {
        s@
    };
    if n == start {
        return None;
    }
    let mut m: u64 = 0;
    let mut k: usize = start;
    while k < n
        invariant
            start <= k <= n,
            n == s@.len(),
            ds == if signed {
                s@.skip(1)
            } else {
                s@
            },
            ds.len() == n - start,
            forall|j: int| 0 <= j < ds.len() ==> ds[j] == s@[j + start],
            all_digits(ds.take(k - start)),
            m == dec_val(ds.take(k - start)),
            m <= 2147483648,
        decreases n - k,
    {
        let c = s[k];
        if !digit_char(c) {
            assert(!all_digits(ds)) by {
                assert(ds[k - start] == s@[k as int]);
            }
            return None;
        }
        let d: u64 = (c as u32 - 48) as u64;
        let ghost kk: int = k as int;
        proof {
            lemma_dec_val_take_step(ds, kk - start);
            assert(ds[kk - start] == s@[kk]);
            assert(all_digits(ds.take(kk - start + 1))) by {
                assert(forall|j: int|
                    0 <= j < kk - start + 1 ==> is_digit(#[trigger] ds.take(kk - start + 1)[j]));
            }
        }
        m = m * 10 + d;
        k += 1;
        proof {
            assert(m == dec_val(ds.take(kk - start + 1)));
        }
        if m > 2147483648 {
            proof {
                if all_digits(ds) {
                    lemma_dec_val_grows(ds, kk - start + 1);
                    assert(dec_val(ds) >= dec_val(ds.take(kk - start + 1)));
                    assert(dec_val(ds) > i32::MAX);
                }
                assert(spec_parse_i32(s@) is None);
            }
            return None;
        }
    }
    proof {
        assert(ds.take(n - start) =~= ds);
    }
    if neg {
        if m == 2147483648 {
            Some(i32::MIN)
        } else {
            Some(-(m as i32))
        }
    } else {
        if m == 2147483648 {
            None
        } else {
            Some(m as i32)
        }
    }
}

/// The decimal text of a natural number: most significant digit first, a
/// single `0` for zero.
pub open spec fn dec_str(n: int) -> Seq<char>
    decreases n,
{
    if n < 0 {
        Seq::empty()
    } else if n < 10 {
        seq![((48 + n) as u8) as char]
    } else {
        dec_str(n / 10) + seq![((48 + n % 10) as u8) as char]
    }
}

/// The decimal text of a signed number: a `-` sign where negative.
pub open spec fn dec_str_i32(i: int) -> Seq<char> {
    if i < 0 {
        seq!['-'] + dec_str(-i)
    } else {
        dec_str(i)
    }
}

/// Appends the decimal text of `n`.
pub fn push_dec_u32(n: u32, out: &mut Vec<char>)
    ensures
        final(out)@ == old(out)@ + dec_str(n as int),
    decreases n,
{
    if n < 10 {
        out.push((48 + n as u8) as char);
        proof {
            assert(out@ =~= old(out)@ + dec_str(n as int));
        }
    } else {
        push_dec_u32(n / 10, out);
        out.push((48 + (n % 10) as u8) as char);
        proof {
            assert(out@ =~= old(out)@ + dec_str(n as int));
        }
    }
}

/// The decimal text of an unsigned number, as a string.
pub fn u32_string(n: u32) -> (s: String)
    ensures
        s@ == dec_str(n as int),
{
    let mut v: Vec<char> = Vec::new();
    push_dec_u32(n, &mut v);
    proof {
        assert(Seq::<char>::empty() + dec_str(n as int) =~= dec_str(n as int));
    }
    chars_to_string(&v)
}

/// The decimal text of a signed number, as a string.
pub fn i32_string(i: i32) -> (s: String)
    ensures
        s@ == dec_str_i32(i as int),
{
    let mut v: Vec<char> = Vec::new();
    if i < 0 {
        v.push('-');
        let m: u32 = (-(i as i64)) as u32;
        push_dec_u32(m, &mut v);
        proof {
            assert(seq!['-'] + dec_str(m as int) =~= dec_str_i32(i as int));
            assert(Seq::<char>::empty().push('-') + dec_str(m as int) =~= seq!['-'] + dec_str(
                m as int,
            ));
        }
    } else {
        push_dec_u32(i as u32, &mut v);
        proof {
            assert(Seq::<char>::empty() + dec_str(i as int) =~= dec_str(i as int));
        }
    }
    chars_to_string(&v)
}

} // verus!
