//! Decimal text form of unsigned integers: the canonical rendering (most
//! significant digit first, no leading zeros), its numeric value, and exact
//! executable rendering and parsing, with a proved round trip.

use vstd::prelude::*;

use crate::strutil::push_char;

verus! {

/// The character for one decimal digit value.
pub open spec fn digit_char(d: int) -> char {
    ((d + 48) as u8) as char
}

pub open spec fn is_dec_digit(c: char) -> bool {
    48 <= c as int && c as int <= 57
}

/// Numeric value of one digit character (0 for anything else).
pub open spec fn digit_value(c: char) -> nat {
    if is_dec_digit(c) {
        (c as int - 48) as nat
    } else {
        0
    }
}

/// Canonical decimal rendering of `n`.
pub open spec fn dec_text(n: nat) -> Seq<char>
    decreases n,
{
    if n < 10 {
        seq![digit_char(n as int)]
    } else {
        dec_text(n / 10).push(digit_char((n % 10) as int))
    }
}

pub open spec fn all_dec_digits(s: Seq<char>) -> bool {
    forall|i: int| 0 <= i < s.len() ==> is_dec_digit(#[trigger] s[i])
}

/// Numeric value of a digit string, most significant digit first.
pub open spec fn dec_value(s: Seq<char>) -> nat
    decreases s.len(),
{
    if s.len() == 0 {
        0
    } else {
        dec_value(s.drop_last()) * 10 + digit_value(s.last())
    }
}

/// The strings that parse as a `u64`: nonempty, all digits, value in range.
pub open spec fn is_u64_text(s: Seq<char>) -> bool {
    s.len() > 0 && all_dec_digits(s) && dec_value(s) <= u64::MAX
}

/// The canonical rendering consists of decimal digits and evaluates back to
/// the rendered number.
pub proof fn lemma_dec_text_value(n: nat)
    ensures
        dec_text(n).len() >= 1,
        all_dec_digits(dec_text(n)),
        dec_value(dec_text(n)) == n,
    decreases n,
{
    if n < 10 {
        let s0 = dec_text(n);
        assert(s0 == seq![digit_char(n as int)]);
        assert(is_dec_digit(digit_char(n as int)));
        assert(s0.len() == 1);
        assert(s0.last() == digit_char(n as int));
        assert(s0.drop_last() =~= Seq::<char>::empty());
        assert(dec_value(s0.drop_last()) == 0);
        assert(dec_value(s0) == dec_value(s0.drop_last()) * 10 + digit_value(s0.last()));
        assert(dec_value(s0) == digit_value(digit_char(n as int)));
    } else {
        lemma_dec_text_value(n / 10);
        let d = (n % 10) as int;
        assert(dec_text(n) == dec_text(n / 10).push(digit_char(d)));
        assert(dec_text(n).drop_last() =~= dec_text(n / 10));
        assert(dec_text(n).last() == digit_char(d));
        assert(is_dec_digit(digit_char(d)));
        assert(digit_value(digit_char(d)) == n % 10);
        assert(dec_value(dec_text(n)) == (n / 10) * 10 + n % 10);
        assert((n / 10) * 10 + n % 10 == n) by (nonlinear_arith);
        assert forall|i: int| 0 <= i < dec_text(n).len() implies is_dec_digit(
            #[trigger] dec_text(n)[i],
        ) by {
            if i < dec_text(n).len() - 1 {
                assert(dec_text(n)[i] == dec_text(n / 10)[i]);
            }
        }
    }
}

/// A longer digit prefix never has a smaller value.
proof fn lemma_dec_value_prefix_mono(s: Seq<char>, i: int, j: int)
    requires
        0 <= i <= j <= s.len(),
    ensures
        dec_value(s.subrange(0, i)) <= dec_value(s.subrange(0, j)),
    decreases j - i,
{
    if i < j {
        lemma_dec_value_prefix_mono(s, i, j - 1);
        assert(s.subrange(0, j).drop_last() =~= s.subrange(0, j - 1));
        let v = dec_value(s.subrange(0, j - 1));
        assert(v * 10 >= v) by (nonlinear_arith);
        assert(dec_value(s.subrange(0, j)) >= v);
    }
}

/// The character for one decimal digit value.
pub fn digit_char_of(d: u8) -> (c: char)
    requires
        d < 10,
    ensures
        c == digit_char(d as int),
{
    (d + 48) as char
}

/// Classifies one character as a decimal digit and yields its value.
pub fn dec_digit_of(c: char) -> (r: Option<u8>)
    ensures
        r is Some <==> is_dec_digit(c),
        r is Some ==> r->0 as nat == digit_value(c),
{
    let v: u32 = c as u32;
    if 48 <= v && v <= 57 {
        Some((v - 48) as u8)
    } else {
        None
    }
}

/// Appends the canonical decimal rendering of `n` to `out`.
pub fn push_dec(n: u64, out: &mut String)
    ensures
        final(out)@ == old(out)@ + dec_text(n as nat),
    decreases n,
{
    if n < 10 {
        push_char(out, digit_char_of(n as u8));
        proof {
            assert(final(out)@ =~= old(out)@ + dec_text(n as nat));
        }
    } else {
        push_dec(n / 10, out);
        push_char(out, digit_char_of((n % 10) as u8));
        proof {
            assert(final(out)@ =~= old(out)@ + dec_text(n as nat));
        }
    }
}

/// Parses a decimal `u64`; returns `Some` exactly on the strings whose digits
/// give a value in range.
pub fn parse_u64(s: &str) -> (r: Option<u64>)
    ensures
        r is Some <==> is_u64_text(s@),
        r is Some ==> r->0 as nat == dec_value(s@),
{
    let n: usize = s.unicode_len();
    if n == 0 {
        return None;
    }
    let mut acc: u64 = 0;
    let mut i: usize = 0;
    while i < n
        invariant
            0 <= i <= n,
            n == s@.len(),
            all_dec_digits(s@.subrange(0, i as int)),
            acc as nat == dec_value(s@.subrange(0, i as int)),
        decreases n - i,
    {
        let c: char = s.get_char(i);
        let d: u8 = match dec_digit_of(c) {
            Some(d) => d,
            None => {
                proof {
                    assert(!is_dec_digit(s@[i as int]));
                }
                return None;
            },
        };
        let wide: u128 = acc as u128 * 10 + d as u128;
        proof {
            assert(s@.subrange(0, i as int + 1).drop_last() =~= s@.subrange(0, i as int));
            assert(s@.subrange(0, i as int + 1).last() == s@[i as int]);
            assert(dec_value(s@.subrange(0, i as int + 1)) == wide as nat);
        }
        if wide > u64::MAX as u128 {
            proof {
                lemma_dec_value_prefix_mono(s@, i as int + 1, n as int);
                assert(s@.subrange(0, n as int) =~= s@);
                assert(dec_value(s@) > u64::MAX);
            }
            return None;
        }
        acc = wide as u64;
        i = i + 1;
    }
    proof {
        assert(s@.subrange(0, n as int) =~= s@);
    }
    Some(acc)
}

} // verus!
