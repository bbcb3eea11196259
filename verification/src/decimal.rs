//! Decimal ASCII text: rendering heights and speeds as digit strings and
//! parsing a digit string back into a height.
//!
//! The preset store persists a height as exactly this text, and the telemetry
//! display prints positions and speeds with it.

use vstd::prelude::*;
use vstd::arithmetic::div_mod::lemma_fundamental_div_mod;

verus! {

/// The ASCII code of the decimal digit `d`, for `d < 10`.
pub open spec fn digit_byte(d: nat) -> u8 {
    (48 + d) as u8
}

/// The decimal digits of `n`, most significant first, no sign, no padding,
/// no leading zero except for `n == 0` itself.
pub open spec fn digit_seq(n: nat) -> Seq<u8>
    decreases n,
{
    if n < 10 {
        seq![digit_byte(n)]
    } else {
        digit_seq(n / 10).push(digit_byte(n % 10))
    }
}

/// The digits of `n` prefixed with an ASCII minus sign when `n` is negative.
pub open spec fn signed_digit_seq(n: int) -> Seq<u8> {
    if n < 0 {
        seq![45u8] + digit_seq((-n) as nat)
    } else {
        digit_seq(n as nat)
    }
}

/// `b` is the ASCII code of a decimal digit.
pub open spec fn is_ascii_digit(b: u8) -> bool {
    48 <= b <= 57
}

pub open spec fn all_ascii_digits(s: Seq<u8>) -> bool {
    forall|i: int| 0 <= i < s.len() ==> is_ascii_digit(#[trigger] s[i])
}

/// The value of a digit string read in base ten, most significant digit first.
pub open spec fn dec_value(s: Seq<u8>) -> int
    decreases s.len(),
{
    if s.len() == 0 {
        0
    } else {
        dec_value(s.drop_last()) * 10 + (s.last() - 48)
    }
}

/// What parsing an entire byte string as an unsigned decimal integer yields:
/// after an optional leading plus sign there must be one or more decimal
/// digits, and their value must fit in `u16`.
pub open spec fn parse_u16_spec(s: Seq<u8>) -> Option<u16> {
    let body = if s.len() > 0 && s[0] == 43 {
        s.drop_first()
    } else {
        s
    };
    if body.len() > 0 && all_ascii_digits(body) && dec_value(body) <= u16::MAX as int {
        Some(dec_value(body) as u16)
    } else {
        None
    }
}

/// Appending further digits never lowers a digit string's value.
pub proof fn lemma_dec_value_append(p: Seq<u8>, t: Seq<u8>)
    requires
        dec_value(p) >= 0,
        all_ascii_digits(t),
    ensures
        dec_value(p + t) >= dec_value(p),
    decreases t.len(),
{
    if t.len() == 0 {
        assert(p + t =~= p);
    } else {
        let t0 = t.drop_last();
        assert(all_ascii_digits(t0));
        lemma_dec_value_append(p, t0);
        assert((p + t).drop_last() =~= p + t0);
        assert((p + t).last() == t.last());
        assert(is_ascii_digit(t.last()));
    }
}

/// The digit string of `n` is made of digits, starts with a digit, and reads
/// back as `n`.
pub proof fn lemma_digit_seq_value(n: nat)
    ensures
        digit_seq(n).len() >= 1,
        all_ascii_digits(digit_seq(n)),
        is_ascii_digit(digit_seq(n)[0]),
        dec_value(digit_seq(n)) == n,
    decreases n,
{
    if n < 10 {
        let s = digit_seq(n);
        assert(s =~= seq![digit_byte(n)]);
        assert(s.drop_last() =~= Seq::<u8>::empty());
        assert(digit_byte(n) == 48 + n);
        assert(s.last() == digit_byte(n));
        assert(dec_value(s) == dec_value(s.drop_last()) * 10 + (s.last() - 48));
    } else {
        lemma_digit_seq_value(n / 10);
        lemma_fundamental_div_mod(n as int, 10);
        let s = digit_seq(n / 10);
        let d = digit_byte(n % 10);
        assert(digit_seq(n) == s.push(d));
        assert(s.push(d).drop_last() =~= s);
        assert(s.push(d).last() == d);
        assert(dec_value(digit_seq(n)) == dec_value(s) * 10 + (d - 48));
        assert(all_ascii_digits(s.push(d)));
    }
}

/// Round trip: the digit string of a `u16` parses back to that very value.
pub proof fn lemma_parse_digit_seq(n: u16)
    ensures
        parse_u16_spec(digit_seq(n as nat)) == Some(n),
{
    lemma_digit_seq_value(n as nat);
}

/// Append the decimal digits of `n` to `out`, most significant first.
fn push_digits(n: u16, out: &mut Vec<u8>)
    ensures
        final(out)@ == old(out)@ + digit_seq(n as nat),
    decreases n,
{
    if n < 10 {
        out.push(48 + n as u8);
        proof {
            assert(out@ =~= old(out)@ + digit_seq(n as nat));
        }
    } else {
        let q = n / 10;
        let r = n % 10;
        proof {
            assert(q < n) by (nonlinear_arith)
                requires n >= 10, q == n / 10;
        }
        push_digits(q, out);
        out.push(48 + r as u8);
        proof {
            assert(out@ =~= old(out)@ + digit_seq(n as nat));
        }
    }
}

/// Render `n` as its decimal digits.
pub fn render_u16(n: u16) -> (r: Vec<u8>)
    ensures
        r@ == digit_seq(n as nat),
{
    let mut out: Vec<u8> = Vec::new();
    push_digits(n, &mut out);
    proof {
        assert(out@ =~= digit_seq(n as nat));
    }
    out
}

/// Render `n` as its decimal digits, with a leading minus sign when negative.
pub fn render_i16(n: i16) -> (r: Vec<u8>)
    ensures
        r@ == signed_digit_seq(n as int),
{
    if n >= 0 {
        render_u16(n as u16)
    } else {
        let mut out: Vec<u8> = Vec::new();
        out.push(45);
        let mag = (-(n as i32)) as u16;
        push_digits(mag, &mut out);
        proof {
            assert(out@ =~= signed_digit_seq(n as int));
        }
        out
    }
}

/// Parse an entire byte string as an unsigned decimal integer that fits in
/// `u16`, exactly as [`parse_u16_spec`] describes.
pub fn parse_u16(bytes: &Vec<u8>) -> (r: Option<u16>)
    ensures
        r == parse_u16_spec(bytes@),
{
    let len = bytes.len();
    let start: usize = if len > 0 && bytes[0] == 43 {
        1
    } else {
        0
    };
    let ghost body = if bytes@.len() > 0 && bytes@[0] == 43 {
        bytes@.drop_first()
    } else {
        bytes@
    };
    proof {
        assert(body =~= bytes@.subrange(start as int, len as int));
    }
    if len == start {
        return None;
    }
    let mut i: usize = start;
    let mut val: u32 = 0;
    while i < len
        invariant
            start <= i <= len,
            start < len,
            len == bytes@.len(),
            body == bytes@.subrange(start as int, len as int),
            body == (if bytes@.len() > 0 && bytes@[0] == 43 {
                bytes@.drop_first()
            } else {
                bytes@
            }),
            val <= u16::MAX,
            all_ascii_digits(bytes@.subrange(start as int, i as int)),
            val == dec_value(bytes@.subrange(start as int, i as int)),
        decreases len - i,
    {
        let b = bytes[i];
        if b < 48 || b > 57 {
            proof {
                assert(body[i - start] == bytes@[i as int]);
                assert(!is_ascii_digit(body[i - start]));
                assert(!all_ascii_digits(body));
            }
            return None;
        }
        let d = (b - 48) as u32;
        let nv = val * 10 + d;
        proof {
            let p = bytes@.subrange(start as int, (i + 1) as int);
            assert(p.drop_last() =~= bytes@.subrange(start as int, i as int));
            assert(p.last() == bytes@[i as int]);
            assert(dec_value(p) == val * 10 + d);
            assert(all_ascii_digits(p));
        }
        if nv > 65535 {
            proof {
                let p = bytes@.subrange(start as int, (i + 1) as int);
                let rest = bytes@.subrange((i + 1) as int, len as int);
                if all_ascii_digits(body) {
                    assert(body =~= p + rest);
                    assert forall|k: int| 0 <= k < rest.len() implies is_ascii_digit(
                        #[trigger] rest[k],
                    ) by {
                        assert(rest[k] == body[k + (i + 1 - start)]);
                    }
                    assert(all_ascii_digits(rest));
                    lemma_dec_value_append(p, rest);
                    assert(dec_value(body) > u16::MAX as int);
                }
            }
            return None;
        }
        val = nv;
        i = i + 1;
    }
    proof {
        assert(bytes@.subrange(start as int, i as int) =~= body);
    }
    Some(val as u16)
}

} // verus!
