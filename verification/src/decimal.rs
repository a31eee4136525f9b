//! Decimal text for the command line: rendering the reported width and
//! height, and reading the width and height arguments back from their
//! textual form.

use vstd::prelude::*;
use crate::wide::push_char;
use vstd::string::StrSliceExecFns;

verus! {

/// The character for one decimal digit.
pub open spec fn digit_char(d: nat) -> char
    recommends
        d < 10,
{
    ((d + 48) as u8) as char
}

/// The decimal digits of `n`, most significant first, with no leading zero
/// except for `n == 0` itself.
pub open spec fn dec_digits(n: nat) -> Seq<char>
    decreases n,
{
    if n < 10 {
        seq![digit_char(n)]
    } else {
        dec_digits(n / 10).push(digit_char(n % 10))
    }
}

/// The decimal text of a signed value: a leading minus for negatives.
pub open spec fn dec_str_i32(v: int) -> Seq<char> {
    if v < 0 {
        seq!['-'] + dec_digits((-v) as nat)
    } else {
        dec_digits(v as nat)
    }
}

/// Appends the decimal digits of `n` to `s`.
fn push_dec_u64(s: &mut String, n: u64)
    ensures
        final(s)@ == old(s)@ + dec_digits(n as nat),
    decreases n,
{
    if n >= 10 {
        push_dec_u64(s, n / 10);
    }
    let ghost s0 = s@;
    let d: u8 = (n % 10) as u8 + 48;
    push_char(s, d as char);
    proof {
        assert(d as char == digit_char((n % 10) as nat));
        if n < 10 {
            assert(n % 10 == n);
            assert(s@ =~= old(s)@ + dec_digits(n as nat));
        } else {
            assert(s0 == old(s)@ + dec_digits((n / 10) as nat));
            assert(s@ =~= old(s)@ + dec_digits(n as nat));
        }
    }
}

/// Renders `v` in decimal, exactly as the reports print it.
pub fn fmt_i32(v: i32) -> (r: String)
    ensures
        r@ == dec_str_i32(v as int),
{
    let mut s = String::new();
    if v < 0 {
        push_char(&mut s, '-');
        let m: u64 = (-(v as i64)) as u64;
        push_dec_u64(&mut s, m);
        proof {
            assert(m as nat == (-(v as int)) as nat);
            assert(s@ =~= dec_str_i32(v as int));
        }
    } else {
        push_dec_u64(&mut s, v as u64);
        proof {
            assert(s@ =~= dec_str_i32(v as int));
        }
    }
    s
}

/// A decimal digit.
pub open spec fn is_digit_char(c: char) -> bool {
    48 <= c as u32 <= 57
}

/// The value of one digit character.
pub open spec fn digit_val(c: char) -> int
    recommends
        is_digit_char(c),
{
    c as u32 - 48
}

/// Every character of the sequence is a digit.
pub open spec fn all_digits(s: Seq<char>) -> bool {
    forall|i: int| 0 <= i < s.len() ==> is_digit_char(#[trigger] s[i])
}

/// The value of an unsigned digit string, most significant first.
pub open spec fn dec_val(s: Seq<char>) -> int
    recommends
        all_digits(s),
    decreases s.len(),
{
    if s.len() == 0 {
        0
    } else {
        dec_val(s.drop_last()) * 10 + digit_val(s.last())
    }
}

/// The value a decimal string denotes, if any: an optional sign, then at
/// least one digit, and a value within the `i32` range.
pub open spec fn parse_dec_i32(s: Seq<char>) -> Option<int> {
    if s.len() >= 1 && (s[0] == '-' || s[0] == '+') {
        let ds = s.drop_first();
        if ds.len() > 0 && all_digits(ds) {
            let m = if s[0] == '-' {
                -dec_val(ds)
            } else {
                dec_val(ds)
            };
            if i32::MIN <= m <= i32::MAX {
                Some(m)
            } else {
                None
            }
        } else {
            None
        }
    } else if s.len() > 0 && all_digits(s) {
        if dec_val(s) <= i32::MAX {
            Some(dec_val(s))
        } else {
            None
        }
    } else {
        None
    }
}

/// A digit string has a non-negative value.
proof fn lemma_dec_val_nonneg(s: Seq<char>)
    requires
        all_digits(s),
    ensures
        dec_val(s) >= 0,
    decreases s.len(),
{
    if s.len() == 0 {
    } else {
        assert(all_digits(s.drop_last()));
        lemma_dec_val_nonneg(s.drop_last());
    }
}

/// Reading more digits never shrinks the value.
proof fn lemma_dec_val_prefix_le(s: Seq<char>, i: int)
    requires
        all_digits(s),
        0 <= i <= s.len(),
    ensures
        dec_val(s.take(i)) <= dec_val(s),
    decreases s.len() - i,
{
    if i == s.len() {
        assert(s.take(i) =~= s);
    } else {
        lemma_dec_val_prefix_le(s, i + 1);
        assert(s.take(i + 1).drop_last() =~= s.take(i));
        assert(all_digits(s.take(i)));
        lemma_dec_val_nonneg(s.take(i));
        assert(dec_val(s.take(i + 1)) == dec_val(s.take(i)) * 10 + digit_val(s[i]));
        assert(is_digit_char(s[i]));
    }
}

/// Reads a decimal integer, exactly as `parse_dec_i32` defines it: `None`
/// on an empty string, a stray character, a bare sign, or a value outside
/// the `i32` range.
pub fn parse_i32(s: &str) -> (r: Option<i32>)
    ensures
        r is Some <==> parse_dec_i32(s@) is Some,
        r is Some ==> r.unwrap() == parse_dec_i32(s@).unwrap(),
{
    let len: usize = s.unicode_len();
    if len == 0 {
        return None;
    }
    let first: char = s.get_char(0);
    let neg: bool = first == '-';
    let signed: bool = neg || first == '+';
    let start: usize = if signed {
        1
    } else {
        0
    };
    let ghost ds = s@.skip(start as int);
    proof {
        if signed {
            assert(ds =~= s@.drop_first());
        } else {
            assert(ds =~= s@);
        }
    }
    if start >= len {
        return None;
    }
    let mut acc: u64 = 0;
    let mut i: usize = start;
    while i < len
        invariant
            start <= i <= len,
            len == s@.len(),
            len >= 1,
            signed == (s@[0] == '-' || s@[0] == '+'),
            signed ==> start == 1,
            !signed ==> start == 0,
            ds == s@.skip(start as int),
            forall|j: int| start <= j < i ==> is_digit_char(#[trigger] s@[j]),
            acc == dec_val(s@.subrange(start as int, i as int)),
            acc <= 0x8000_0000,
        decreases len - i,
    {
        let c: char = s.get_char(i);
        let v: u32 = c as u32;
        if v < 48 || v > 57 {
            proof {
                assert(!is_digit_char(s@[i as int]));
                assert(ds[i - start] == s@[i as int]);
                assert(!all_digits(ds));
            }
            return None;
        }
        let d: u64 = (v - 48) as u64;
        let ghost prefix = s@.subrange(start as int, i as int);
        acc = acc * 10 + d;
        proof {
            assert(s@.subrange(start as int, i + 1).drop_last() =~= prefix);
            assert(s@.subrange(start as int, i + 1).last() == s@[i as int]);
            assert(acc == dec_val(s@.subrange(start as int, i + 1)));
        }
        if acc > 0x8000_0000 {
            proof {
                if all_digits(ds) {
                    assert(ds.take(i + 1 - start) =~= s@.subrange(start as int, i + 1));
                    lemma_dec_val_prefix_le(ds, i + 1 - start);
                    assert(dec_val(ds) > 0x8000_0000);
                }
                if signed {
                    assert(s@.drop_first() =~= ds);
                } else {
                    assert(s@.skip(0) =~= s@);
                }
                assert(parse_dec_i32(s@) is None);
            }
            return None;
        }
        i = i + 1;
    }
    proof {
        assert(s@.subrange(start as int, len as int) =~= ds);
        assert(acc == dec_val(ds));
        assert forall|j: int| 0 <= j < ds.len() implies is_digit_char(#[trigger] ds[j]) by {
            assert(ds[j] == s@[j + start]);
        }
        assert(all_digits(ds));
    }
    if neg {
        let r: i32 = (-(acc as i64)) as i32;
        proof {
            assert(-(acc as int) >= i32::MIN);
            assert(r == -(acc as int));
        }
        Some(r)
    } else {
        if acc > 0x7FFF_FFFF {
            return None;
        }
        Some(acc as i32)
    }
}

} // verus!
