//! The host's wide text encoding (UTF-16): window titles arrive from the
//! window manager as sequences of 16-bit code units and outgoing titles must
//! be handed to it in the same form, null-terminated.
//!
//! `wide_of` and `decode_wide` are the mathematical encoding and decoding;
//! `utf8_to_utf16` and `utf16_to_utf8` are their executable counterparts.

use vstd::prelude::*;
use vstd::string::StrSliceExecFns;
use vstd::utf8::is_scalar;
use vstd::utf8::char_is_scalar;
use vstd::utf8::char_u32_cast;

verus! {

/// A code unit in the high-surrogate range, the first half of a pair.
pub open spec fn is_high_surrogate(u: u16) -> bool {
    0xD800 <= u <= 0xDBFF
}

/// A code unit in the low-surrogate range, the second half of a pair.
pub open spec fn is_low_surrogate(u: u16) -> bool {
    0xDC00 <= u <= 0xDFFF
}

/// The UTF-16 encoding of one Unicode scalar value: one unit for values
/// below 0x10000, a surrogate pair for the rest.
pub open spec fn encode_scalar_wide(v: u32) -> Seq<u16>
    recommends
        is_scalar(v),
{
    if v < 0x10000 {
        seq![v as u16]
    } else {
        seq![
            (0xD800 + (v - 0x10000) / 0x400) as u16,
            (0xDC00 + (v - 0x10000) % 0x400) as u16,
        ]
    }
}

/// The UTF-16 encoding of a character sequence.
pub open spec fn wide_of(s: Seq<char>) -> Seq<u16>
    decreases s.len(),
{
    if s.len() == 0 {
        Seq::empty()
    } else {
        encode_scalar_wide(s[0] as u32) + wide_of(s.drop_first())
    }
}

/// The first code unit starts a well-formed scalar: either it is no
/// surrogate at all, or it is a high surrogate followed by a low one.
pub open spec fn valid_first_unit(units: Seq<u16>) -> bool
    recommends
        units.len() > 0,
{
    if is_high_surrogate(units[0]) {
        units.len() >= 2 && is_low_surrogate(units[1])
    } else {
        !is_low_surrogate(units[0])
    }
}

/// How many units the first scalar of the sequence occupies.
pub open spec fn first_scalar_len_wide(units: Seq<u16>) -> int
    recommends
        units.len() > 0,
{
    if is_high_surrogate(units[0]) {
        2
    } else {
        1
    }
}

/// The scalar value encoded by the first one or two units.
pub open spec fn decode_first_scalar_wide(units: Seq<u16>) -> u32
    recommends
        units.len() > 0,
        valid_first_unit(units),
{
    if is_high_surrogate(units[0]) {
        (0x10000 + (units[0] - 0xD800) * 0x400 + (units[1] - 0xDC00)) as u32
    } else {
        units[0] as u32
    }
}

/// The sequence is well-formed UTF-16: it parses as a run of scalars with
/// no unpaired surrogate anywhere.
pub open spec fn valid_wide(units: Seq<u16>) -> bool
    decreases units.len(),
{
    if units.len() == 0 {
        true
    } else if !valid_first_unit(units) {
        false
    } else {
        valid_wide(units.skip(first_scalar_len_wide(units)))
    }
}

/// The characters a well-formed sequence encodes, scalar by scalar.
pub open spec fn decode_wide(units: Seq<u16>) -> Seq<char>
    recommends
        valid_wide(units),
    decreases units.len(),
{
    if units.len() == 0 {
        Seq::empty()
    } else if !valid_first_unit(units) {
        Seq::empty()
    } else {
        seq![decode_first_scalar_wide(units) as char]
            + decode_wide(units.skip(first_scalar_len_wide(units)))
    }
}

/// The wide sequence of a malformed title cannot be decoded; the error is
/// fatal for that read, so that title text stays trustworthy.
#[derive(Clone, Copy, PartialEq, Eq, Structural, Debug)]
pub struct WideDecodeError;

/// The encoding of one scalar put before any tail is read back as exactly
/// that scalar, and consuming it leaves exactly the tail.
pub proof fn lemma_encode_scalar_wide_first(v: u32, rest: Seq<u16>)
    requires
        is_scalar(v),
    ensures
        valid_first_unit(encode_scalar_wide(v) + rest),
        first_scalar_len_wide(encode_scalar_wide(v) + rest) == encode_scalar_wide(v).len(),
        decode_first_scalar_wide(encode_scalar_wide(v) + rest) == v,
        (encode_scalar_wide(v) + rest).skip(encode_scalar_wide(v).len() as int) == rest,
{
    let units = encode_scalar_wide(v) + rest;
    if v < 0x10000 {
        assert(units[0] == v as u16);
        assert(units.skip(1) =~= rest);
    } else {
        let w = v - 0x10000;
        assert(0 <= w <= 0xFFFFF);
        assert(w / 0x400 <= 0x3FF && 0 <= w % 0x400 <= 0x3FF) by (nonlinear_arith)
            requires
                0 <= w <= 0xFFFFF,
        ;
        assert(units[0] == (0xD800 + w / 0x400) as u16);
        assert(units[1] == (0xDC00 + w % 0x400) as u16);
        assert(is_high_surrogate(units[0]));
        assert(is_low_surrogate(units[1]));
        vstd::arithmetic::div_mod::lemma_fundamental_div_mod(w as int, 0x400);
        assert(decode_first_scalar_wide(units) == v);
        assert(units.skip(2) =~= rest);
    }
}

/// Encoding, then decoding, reproduces any character sequence exactly, and
/// the encoding is always well formed: no `char` is a surrogate, so the
/// wide form of a string never holds an unpaired surrogate.
pub proof fn lemma_wide_round_trip(s: Seq<char>)
    ensures
        valid_wide(wide_of(s)),
        decode_wide(wide_of(s)) == s,
    decreases s.len(),
{
    if s.len() == 0 {
        assert(decode_wide(wide_of(s)) =~= s);
    } else {
        let c = s[0];
        char_is_scalar(c);
        let enc = encode_scalar_wide(c as u32);
        let rest = wide_of(s.drop_first());
        lemma_encode_scalar_wide_first(c as u32, rest);
        lemma_wide_round_trip(s.drop_first());
        char_u32_cast(c, c as u32);
        assert(wide_of(s) == enc + rest);
        assert(decode_wide(wide_of(s)) =~= s);
    }
}

/// Decoding never yields more characters than there were code units.
pub proof fn lemma_decode_wide_len(units: Seq<u16>)
    ensures
        decode_wide(units).len() <= units.len(),
    decreases units.len(),
{
    if units.len() == 0 {
    } else if !valid_first_unit(units) {
    } else {
        lemma_decode_wide_len(units.skip(first_scalar_len_wide(units)));
    }
}

/// Appending one character to a string appends its encoding to the wide form.
pub proof fn lemma_wide_of_push(s: Seq<char>, c: char)
    ensures
        wide_of(s.push(c)) == wide_of(s) + encode_scalar_wide(c as u32),
    decreases s.len(),
{
    if s.len() == 0 {
        let t = s.push(c);
        assert(t[0] == c);
        assert(t.drop_first() =~= Seq::<char>::empty());
        assert(s =~= Seq::<char>::empty());
        assert(wide_of(s) == Seq::<u16>::empty());
        assert(wide_of(t.drop_first()) == Seq::<u16>::empty());
        assert(wide_of(t) == encode_scalar_wide(c as u32) + wide_of(t.drop_first()));
        assert(wide_of(t) =~= wide_of(s) + encode_scalar_wide(c as u32));
    } else {
        lemma_wide_of_push(s.drop_first(), c);
        assert(s.push(c).drop_first() =~= s.drop_first().push(c));
        assert(s.push(c)[0] == s[0]);
        assert(wide_of(s.push(c)) == encode_scalar_wide(s[0] as u32) + wide_of(
            s.drop_first().push(c),
        ));
        assert(wide_of(s.push(c)) == encode_scalar_wide(s[0] as u32) + (wide_of(s.drop_first())
            + encode_scalar_wide(c as u32)));
        assert(wide_of(s) == encode_scalar_wide(s[0] as u32) + wide_of(s.drop_first()));
        assert(wide_of(s.push(c)) =~= wide_of(s) + encode_scalar_wide(c as u32));
    }
}

/// Relies on `String::push`: appends one character at the end of the string.
#[verifier::external_body]
pub(crate) fn push_char(s: &mut String, c: char)
    ensures
        final(s)@ == old(s)@.push(c),
{
    s.push(c);
}

/// Relies on `char::from_u32`: yields the character with code point `v`
/// exactly when `v` is a Unicode scalar value, and `None` otherwise.
#[verifier::external_body]
pub(crate) fn char_from_u32(v: u32) -> (r: Option<char>)
    ensures
        r is Some <==> is_scalar(v),
        r is Some ==> r.unwrap() as u32 == v,
{
    char::from_u32(v)
}

/// Encodes a string in the host's wide format, without a terminating unit.
pub fn encode_wide(s: &str) -> (r: Vec<u16>)
    ensures
        r@ == wide_of(s@),
{
    let len: usize = s.unicode_len();
    let mut out: Vec<u16> = Vec::new();
    let mut i: usize = 0;
    while i < len
        invariant
            i <= len,
            len == s@.len(),
            out@ == wide_of(s@.take(i as int)),
        decreases len - i,
    {
        let c: char = s.get_char(i);
        let v: u32 = c as u32;
        proof {
            char_is_scalar(c);
            assert(s@.take(i + 1) =~= s@.take(i as int).push(s@[i as int]));
            lemma_wide_of_push(s@.take(i as int), c);
        }
        if v < 0x10000 {
            out.push(v as u16);
        } else {
            let w: u32 = v - 0x10000;
            proof {
                assert(w / 0x400 <= 0x3FF && w % 0x400 <= 0x3FF) by (nonlinear_arith)
                    requires
                        0 <= w <= 0xFFFFF,
                ;
            }
            out.push((0xD800 + w / 0x400) as u16);
            out.push((0xDC00 + w % 0x400) as u16);
        }
        i = i + 1;
        proof {
            assert(out@ =~= wide_of(s@.take(i as int)));
        }
    }
    proof {
        assert(s@.take(len as int) =~= s@);
    }
    out
}

/// Encodes a string for the host API: the wide form plus the required
/// terminating null unit.
pub fn utf8_to_utf16(source: &str) -> (r: Vec<u16>)
    ensures
        r@ == wide_of(source@).push(0u16),
{
    let mut out = encode_wide(source);
    out.push(0u16);
    out
}

/// Decodes a wide code-unit sequence back into text. A malformed sequence
/// (any unpaired surrogate) is an error, never a silent substitution.
pub fn utf16_to_utf8(source: &Vec<u16>) -> (r: Result<String, WideDecodeError>)
    ensures
        r is Ok <==> valid_wide(source@),
        r is Ok ==> r.unwrap()@ == decode_wide(source@),
{
    let n: usize = source.len();
    let mut out: String = String::new();
    let mut i: usize = 0;
    proof {
        assert(source@.skip(0) =~= source@);
    }
    while i < n
        invariant
            i <= n,
            n == source@.len(),
            valid_wide(source@) <==> valid_wide(source@.skip(i as int)),
            valid_wide(source@) ==> decode_wide(source@) == out@ + decode_wide(
                source@.skip(i as int),
            ),
        decreases n - i,
    {
        let ghost su = source@.skip(i as int);
        let u: u16 = source[i];
        if 0xD800 <= u && u <= 0xDBFF {
            if i + 1 < n {
                let u2: u16 = source[i + 1];
                if 0xDC00 <= u2 && u2 <= 0xDFFF {
                    let v: u32 = 0x10000 + (u as u32 - 0xD800) * 0x400 + (u2 as u32 - 0xDC00);
                    proof {
                        assert(is_scalar(v));
                        assert(valid_first_unit(su));
                        assert(first_scalar_len_wide(su) == 2);
                        assert(decode_first_scalar_wide(su) == v);
                        assert(su.skip(2) =~= source@.skip(i + 2));
                    }
                    match char_from_u32(v) {
                        Some(c) => {
                            let ghost out0 = out@;
                            push_char(&mut out, c);
                            proof {
                                char_u32_cast(c, v);
                                assert(out0 + decode_wide(su) =~= out@ + decode_wide(
                                    source@.skip(i + 2),
                                ));
                            }
                        },
                        None => {
                            return Err(WideDecodeError);
                        },
                    }
                    i = i + 2;
                } else {
                    proof {
                        assert(!valid_first_unit(su));
                        assert(!valid_wide(source@));
                    }
                    return Err(WideDecodeError);
                }
            } else {
                proof {
                    assert(!valid_first_unit(su));
                    assert(!valid_wide(source@));
                }
                return Err(WideDecodeError);
            }
        } else if 0xDC00 <= u && u <= 0xDFFF {
            proof {
                assert(!valid_first_unit(su));
                assert(!valid_wide(source@));
            }
            return Err(WideDecodeError);
        } else {
            let v: u32 = u as u32;
            proof {
                assert(is_scalar(v));
                assert(valid_first_unit(su));
                assert(first_scalar_len_wide(su) == 1);
                assert(decode_first_scalar_wide(su) == v);
                assert(su.skip(1) =~= source@.skip(i + 1));
            }
            match char_from_u32(v) {
                Some(c) => {
                    let ghost out0 = out@;
                    push_char(&mut out, c);
                    proof {
                        char_u32_cast(c, v);
                        assert(out0 + decode_wide(su) =~= out@ + decode_wide(source@.skip(i + 1)));
                    }
                },
                None => {
                    return Err(WideDecodeError);
                },
            }
            i = i + 1;
        }
    }
    proof {
        assert(source@.skip(n as int) =~= Seq::<u16>::empty());
    }
    Ok(out)
}

} // verus!
