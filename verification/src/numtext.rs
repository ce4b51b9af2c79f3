//! Decimal text: rendering of the integer tuning parameters, and the
//! reading of raw numeric remap keys as 8-bit unsigned integers.

use vstd::prelude::*;
use vstd::string::*;

verus! {

/// The character of one decimal digit value.
pub open spec fn dec_digit_char(d: int) -> char {
    ((d + 48) as u8) as char
}

/// The decimal numeral of a natural number, most significant digit first,
/// no sign and no leading zero (a single `0` for zero).
pub open spec fn dec_u64_spec(n: nat) -> Seq<char>
    decreases n,
{
    if n < 10 {
        seq![dec_digit_char(n as int)]
    } else {
        dec_u64_spec(n / 10).push(dec_digit_char((n % 10) as int))
    }
}

/// The decimal numeral of a signed integer: a `-` sign for negative
/// values, then the numeral of the magnitude.
pub open spec fn dec_i64_spec(n: int) -> Seq<char> {
    if n < 0 {
        seq!['-'] + dec_u64_spec((-n) as nat)
    } else {
        dec_u64_spec(n as nat)
    }
}

/// The one-character string of a decimal digit.
fn digit_str(d: u8) -> (r: &'static str)
    requires
        d < 10,
    ensures
        r@ =~= seq![dec_digit_char(d as int)],
{
    proof {
        reveal_strlit("0");
        reveal_strlit("1");
        reveal_strlit("2");
        reveal_strlit("3");
        reveal_strlit("4");
        reveal_strlit("5");
        reveal_strlit("6");
        reveal_strlit("7");
        reveal_strlit("8");
        reveal_strlit("9");
    }
    match d {
        0 => "0",
        1 => "1",
        2 => "2",
        3 => "3",
        4 => "4",
        5 => "5",
        6 => "6",
        7 => "7",
        8 => "8",
        _ => "9",
    }
}

/// Appends the decimal numeral of `n` to `out`.
pub fn push_dec_u64(out: &mut String, n: u64)
    ensures
        final(out)@ == old(out)@ + dec_u64_spec(n as nat),
    decreases n,
{
    if n < 10 {
        let d = digit_str(n as u8);
        out.append(d);
        proof {
            assert(final(out)@ =~= old(out)@ + dec_u64_spec(n as nat));
        }
    } else {
        proof {
            assert(n / 10 < n) by (nonlinear_arith)
                requires
                    n >= 10,
            ;
        }
        push_dec_u64(out, n / 10);
        let d = digit_str((n % 10) as u8);
        out.append(d);
        proof {
            assert(final(out)@ =~= old(out)@ + dec_u64_spec(n as nat));
        }
    }
}

/// Appends the decimal numeral of the signed integer `n` to `out`.
pub fn push_dec_i64(out: &mut String, n: i64)
    ensures
        final(out)@ == old(out)@ + dec_i64_spec(n as int),
{
    if n >= 0 {
        push_dec_u64(out, n as u64);
    } else {
        proof {
            reveal_strlit("-");
        }
        out.append("-");
        proof {
            assert(out@ =~= old(out)@ + seq!['-']);
        }
        let mag: u64 = ((-(n + 1)) as u64) + 1;
        proof {
            assert(mag as int == -(n as int));
        }
        push_dec_u64(out, mag);
        proof {
            assert(final(out)@ =~= old(out)@ + dec_i64_spec(n as int));
        }
    }
}

/// Whether a character is an ASCII decimal digit.
pub open spec fn is_dec_digit(c: char) -> bool {
    48 <= c as int <= 57
}

/// Whether every character of `s` is a decimal digit.
pub open spec fn all_dec_digits(s: Seq<char>) -> bool {
    forall|i: int| 0 <= i < s.len() ==> is_dec_digit(s[i])
}

/// The value of a digit string, most significant digit first.
pub open spec fn digits_val(s: Seq<char>) -> int
    decreases s.len(),
{
    if s.len() == 0 {
        0
    } else {
        digits_val(s.drop_last()) * 10 + (s.last() as int - 48)
    }
}

/// The digits of a numeral after the optional leading plus sign.
pub open spec fn u8_digits_body(s: Seq<char>) -> Seq<char> {
    if s.len() > 0 && s[0] == '+' {
        s.skip(1)
    } else {
        s
    }
}

/// What reading a string as an 8-bit unsigned decimal integer yields: an
/// optional leading `+`, then at least one digit, value at most 255.
pub open spec fn parse_u8_spec(s: Seq<char>) -> Option<u8> {
    let body = u8_digits_body(s);
    if body.len() > 0 && all_dec_digits(body) && digits_val(body) <= 255 {
        Some(digits_val(body) as u8)
    } else {
        None
    }
}

proof fn lemma_digits_val_nonneg(s: Seq<char>)
    requires
        all_dec_digits(s),
    ensures
        digits_val(s) >= 0,
    decreases s.len(),
{
    if s.len() > 0 {
        assert(all_dec_digits(s.drop_last()));
        lemma_digits_val_nonneg(s.drop_last());
    }
}

/// A digit string's value is at least the value of any prefix of it.
proof fn lemma_digits_val_grows(s: Seq<char>, k: int)
    requires
        all_dec_digits(s),
        0 <= k <= s.len(),
    ensures
        digits_val(s.take(k)) <= digits_val(s),
    decreases s.len() - k,
{
    if k < s.len() {
        lemma_digits_val_grows(s, k + 1);
        assert(s.take(k + 1).drop_last() =~= s.take(k));
        assert(s.take(k + 1).last() == s[k]);
        assert(all_dec_digits(s.take(k)));
        lemma_digits_val_nonneg(s.take(k));
        assert(digits_val(s.take(k)) <= digits_val(s.take(k + 1)));
    } else {
        assert(s.take(k) =~= s);
    }
}

/// Reads a string as an 8-bit unsigned decimal integer, exactly as
/// `parse_u8_spec` says: `None` on an empty numeral, a stray character,
/// or a value above 255.
pub fn parse_u8(s: &str) -> (r: Option<u8>)
    ensures
        r == parse_u8_spec(s@),
{
    let len = s.unicode_len();
    if len == 0 {
        return None;
    }
    let start: usize = if s.get_char(0) == '+' {
        1
    } else {
        0
    };
    let ghost body = u8_digits_body(s@);
    proof {
        assert(body =~= s@.skip(start as int));
    }
    if start >= len {
        proof {
            assert(body.len() == 0);
        }
        return None;
    }
    let mut acc: u32 = 0;
    let mut i: usize = start;
    while i < len
        invariant
            len == s@.len(),
            start <= i <= len,
            start < len,
            start <= 1,
            body == u8_digits_body(s@),
            body == s@.skip(start as int),
            body.len() == len - start,
            forall|j: int| 0 <= j < body.len() ==> body[j] == s@[start + j],
            all_dec_digits(body.take(i - start)),
            acc <= 255,
            acc == digits_val(body.take(i - start)),
        decreases len - i,
    {
        let c = s.get_char(i);
        let cv = c as u32;
        if cv < 48 || cv > 57 {
            proof {
                assert(body[i - start] == c);
                assert(!is_dec_digit(body[i - start]));
                assert(!all_dec_digits(body));
            }
            return None;
        }
        let d = cv - 48;
        proof {
            assert(body.take(i - start + 1).drop_last() =~= body.take(i - start));
            assert(body.take(i - start + 1).last() == body[i - start]);
            assert(body[i - start] == c);
        }
        acc = acc * 10 + d;
        i += 1;
        if acc > 255 {
            proof {
                if all_dec_digits(body) && digits_val(body) <= 255 {
                    lemma_digits_val_grows(body, i - start);
                    assert(false);
                }
            }
            return None;
        }
    }
    proof {
        assert(body.take(i - start) =~= body);
        assert(parse_u8_spec(s@) == Some(acc as u8));
    }
    Some(acc as u8)
}

} // verus!
