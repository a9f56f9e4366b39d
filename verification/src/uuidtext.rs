//! The canonical text form of a 128-bit trace identifier: 32 lowercase
//! hexadecimal digits in five groups of 8-4-4-4-12, separated by hyphens
//! (36 characters in all). Parsing accepts upper- and lowercase digits;
//! rendering always emits lowercase. The round trip is proved.

use vstd::prelude::*;

use crate::strutil::push_char;

verus! {

/// The lowercase character for one hexadecimal digit value.
pub open spec fn hex_char(d: int) -> char {
    if d < 10 {
        ((d + 48) as u8) as char
    } else {
        ((d + 87) as u8) as char
    }
}

pub open spec fn is_hex_digit(c: char) -> bool {
    (48 <= c as int && c as int <= 57) || (97 <= c as int && c as int <= 102) || (65 <= c as int
        && c as int <= 70)
}

/// Numeric value of one hexadecimal digit character (0 for anything else).
pub open spec fn hex_value(c: char) -> nat {
    if 48 <= c as int && c as int <= 57 {
        (c as int - 48) as nat
    } else if 97 <= c as int && c as int <= 102 {
        (c as int - 87) as nat
    } else if 65 <= c as int && c as int <= 70 {
        (c as int - 55) as nat
    } else {
        0
    }
}

/// Numeric value of a hexadecimal digit string, most significant first.
pub open spec fn hex_seq_value(s: Seq<char>) -> nat
    decreases s.len(),
{
    if s.len() == 0 {
        0
    } else {
        hex_seq_value(s.drop_last()) * 16 + hex_value(s.last())
    }
}

/// The `k` lowest hexadecimal digits of `n`, most significant first.
pub open spec fn hex_text(n: nat, k: nat) -> Seq<char>
    decreases k,
{
    if k == 0 {
        Seq::empty()
    } else {
        hex_text(n / 16, (k - 1) as nat).push(hex_char((n % 16) as int))
    }
}

pub open spec fn pow16(k: nat) -> nat
    decreases k,
{
    if k == 0 {
        1
    } else {
        16 * pow16((k - 1) as nat)
    }
}

/// The hyphen positions of the canonical 36-character layout.
pub open spec fn is_gap(p: int) -> bool {
    p == 8 || p == 13 || p == 18 || p == 23
}

/// How many hyphens lie strictly before position `p`.
pub open spec fn gaps_before(p: int) -> int {
    if p <= 8 {
        0
    } else if p <= 13 {
        1
    } else if p <= 18 {
        2
    } else if p <= 23 {
        3
    } else {
        4
    }
}

pub open spec fn uuid_char_at(u: u128, p: int) -> char {
    if is_gap(p) {
        '-'
    } else {
        hex_text(u as nat, 32)[p - gaps_before(p)]
    }
}

/// The canonical text form of the 128-bit value `u`.
pub open spec fn uuid_text(u: u128) -> Seq<char> {
    Seq::new(36, |p: int| uuid_char_at(u, p))
}

/// The strings accepted as a canonical 128-bit identifier: 36 characters,
/// hyphens exactly at the gap positions, hexadecimal digits elsewhere.
pub open spec fn is_uuid_text(s: Seq<char>) -> bool {
    &&& s.len() == 36
    &&& forall|p: int| 0 <= p < 36 && is_gap(p) ==> #[trigger] s[p] == '-'
    &&& forall|p: int| 0 <= p < 36 && !is_gap(p) ==> is_hex_digit(#[trigger] s[p])
}

/// The non-hyphen characters among the first `p` positions of `s`.
pub open spec fn uuid_digit_prefix(s: Seq<char>, p: int) -> Seq<char>
    decreases p,
{
    if p <= 0 {
        Seq::empty()
    } else if is_gap(p - 1) {
        uuid_digit_prefix(s, p - 1)
    } else {
        uuid_digit_prefix(s, p - 1).push(s[p - 1])
    }
}

/// The 128-bit value written in a canonical identifier string.
pub open spec fn uuid_value(s: Seq<char>) -> nat {
    hex_seq_value(uuid_digit_prefix(s, 36))
}

proof fn lemma_pow16_add(a: nat, b: nat)
    ensures
        pow16(a + b) == pow16(a) * pow16(b),
    decreases b,
{
    if b == 0 {
        assert(pow16(a + 0) == pow16(a) * 1);
    } else {
        lemma_pow16_add(a, (b - 1) as nat);
        assert(pow16(a + b) == 16 * pow16((a + b - 1) as nat));
        assert(16 * (pow16(a) * pow16((b - 1) as nat)) == pow16(a) * (16 * pow16(
            (b - 1) as nat,
        ))) by (nonlinear_arith);
        assert(pow16(b) == 16 * pow16((b - 1) as nat));
    }
}

proof fn lemma_pow16_32()
    ensures
        pow16(32) == 0x100000000000000000000000000000000,
{
    assert(pow16(0) == 1);
    assert(pow16(1) == 16);
    lemma_pow16_add(1, 1);
    assert(pow16(2) == 256);
    lemma_pow16_add(2, 2);
    assert(pow16(4) == 0x10000);
    lemma_pow16_add(4, 4);
    assert(pow16(8) == 0x100000000);
    lemma_pow16_add(8, 8);
    assert(pow16(16) == 0x10000000000000000);
    lemma_pow16_add(16, 16);
    assert(pow16(32) == 0x10000000000000000 * 0x10000000000000000);
}

proof fn lemma_pow16_mono(a: nat, b: nat)
    requires
        a <= b,
    ensures
        pow16(a) <= pow16(b),
    decreases b,
{
    if a < b {
        lemma_pow16_mono(a, (b - 1) as nat);
        assert(pow16(b) == 16 * pow16((b - 1) as nat));
    }
}

/// `hex_text` yields exactly `k` hexadecimal digit characters.
proof fn lemma_hex_text_wf(n: nat, k: nat)
    ensures
        hex_text(n, k).len() == k,
        forall|i: int| 0 <= i < k ==> is_hex_digit(#[trigger] hex_text(n, k)[i]),
    decreases k,
{
    if k > 0 {
        lemma_hex_text_wf(n / 16, (k - 1) as nat);
        let d = (n % 16) as int;
        assert(0 <= d < 16);
        assert(is_hex_digit(hex_char(d)));
        assert forall|i: int| 0 <= i < k implies is_hex_digit(#[trigger] hex_text(n, k)[i]) by {
            if i < k - 1 {
                assert(hex_text(n, k)[i] == hex_text(n / 16, (k - 1) as nat)[i]);
            } else {
                assert(hex_text(n, k)[i] == hex_char(d));
            }
        }
    }
}

/// The digits of `hex_text(n, k)` evaluate back to `n` when `n` fits in `k` digits.
proof fn lemma_hex_text_value(n: nat, k: nat)
    requires
        n < pow16(k),
    ensures
        hex_seq_value(hex_text(n, k)) == n,
    decreases k,
{
    if k == 0 {
        assert(n == 0);
    } else {
        assert(pow16(k) == 16 * pow16((k - 1) as nat));
        assert(n / 16 < pow16((k - 1) as nat)) by (nonlinear_arith)
            requires
                n < 16 * pow16((k - 1) as nat),
        ;
        lemma_hex_text_value(n / 16, (k - 1) as nat);
        lemma_hex_text_wf(n / 16, (k - 1) as nat);
        let d = (n % 16) as int;
        let s = hex_text(n, k);
        assert(s == hex_text(n / 16, (k - 1) as nat).push(hex_char(d)));
        assert(s.drop_last() =~= hex_text(n / 16, (k - 1) as nat));
        assert(s.last() == hex_char(d));
        assert(hex_value(hex_char(d)) == n % 16);
        assert(hex_seq_value(s) == (n / 16) * 16 + n % 16);
        assert((n / 16) * 16 + n % 16 == n) by (nonlinear_arith);
    }
}

/// Every hexadecimal digit string of length `k` has a value below `pow16(k)`.
proof fn lemma_hex_seq_value_bound(s: Seq<char>)
    ensures
        hex_seq_value(s) < pow16(s.len()),
    decreases s.len(),
{
    if s.len() > 0 {
        lemma_hex_seq_value_bound(s.drop_last());
        let v = hex_seq_value(s.drop_last());
        assert(hex_value(s.last()) <= 15);
        assert(v * 16 + 15 < 16 * pow16((s.len() - 1) as nat)) by (nonlinear_arith)
            requires
                v < pow16((s.len() - 1) as nat),
        ;
        assert(pow16(s.len()) == 16 * pow16((s.len() - 1) as nat));
    }
}

/// In the rendered text, the digit prefix up to position `p` is the prefix of
/// the digit string.
proof fn lemma_uuid_digit_prefix_of_text(u: u128, p: int)
    requires
        0 <= p <= 36,
    ensures
        uuid_digit_prefix(uuid_text(u), p) == hex_text(u as nat, 32).subrange(
            0,
            p - gaps_before(p),
        ),
    decreases p,
{
    lemma_hex_text_wf(u as nat, 32);
    let ht = hex_text(u as nat, 32);
    if p == 0 {
        assert(uuid_digit_prefix(uuid_text(u), 0) =~= ht.subrange(0, 0));
    } else {
        lemma_uuid_digit_prefix_of_text(u, p - 1);
        if is_gap(p - 1) {
            assert(gaps_before(p) == gaps_before(p - 1) + 1);
            assert(uuid_digit_prefix(uuid_text(u), p) =~= ht.subrange(0, p - gaps_before(p)));
        } else {
            let j = p - 1 - gaps_before(p - 1);
            assert(gaps_before(p) == gaps_before(p - 1));
            assert(uuid_text(u)[p - 1] == uuid_char_at(u, p - 1));
            assert(uuid_char_at(u, p - 1) == ht[j]);
            assert(uuid_digit_prefix(uuid_text(u), p) =~= ht.subrange(0, j).push(ht[j]));
            assert(ht.subrange(0, j).push(ht[j]) =~= ht.subrange(0, j + 1));
        }
    }
}

/// Round trip: the canonical text of `u` is accepted and evaluates to `u`.
pub proof fn lemma_uuid_round_trip(u: u128)
    ensures
        is_uuid_text(uuid_text(u)),
        uuid_value(uuid_text(u)) == u as nat,
{
    lemma_hex_text_wf(u as nat, 32);
    let s = uuid_text(u);
    assert forall|p: int| 0 <= p < 36 && !is_gap(p) implies is_hex_digit(#[trigger] s[p]) by {
        assert(s[p] == uuid_char_at(u, p));
        assert(0 <= p - gaps_before(p) < 32);
    }
    lemma_uuid_digit_prefix_of_text(u, 36);
    assert(hex_text(u as nat, 32).subrange(0, 32) =~= hex_text(u as nat, 32));
    lemma_pow16_32();
    lemma_hex_text_value(u as nat, 32);
}

/// The lowercase character for one hexadecimal digit value.
pub fn hex_char_of(d: u8) -> (c: char)
    requires
        d < 16,
    ensures
        c == hex_char(d as int),
{
    if d < 10 {
        (d + 48) as char
    } else {
        (d + 87) as char
    }
}

/// Classifies one character as a hexadecimal digit and yields its value.
pub fn hex_digit_of(c: char) -> (r: Option<u8>)
    ensures
        r is Some <==> is_hex_digit(c),
        r is Some ==> r->0 as nat == hex_value(c),
{
    let v: u32 = c as u32;
    if 48 <= v && v <= 57 {
        Some((v - 48) as u8)
    } else if 97 <= v && v <= 102 {
        Some((v - 87) as u8)
    } else if 65 <= v && v <= 70 {
        Some((v - 55) as u8)
    } else {
        None
    }
}

/// Appends the `k` lowest hexadecimal digits of `n`, most significant first.
fn push_hex(n: u128, k: u8, out: &mut String)
    ensures
        final(out)@ == old(out)@ + hex_text(n as nat, k as nat),
    decreases k,
{
    if k == 0 {
        proof {
            assert(final(out)@ =~= old(out)@ + hex_text(n as nat, 0));
        }
    } else {
        push_hex(n / 16, k - 1, out);
        push_char(out, hex_char_of((n % 16) as u8));
        proof {
            assert(final(out)@ =~= old(out)@ + hex_text(n as nat, k as nat));
        }
    }
}

/// Renders `u` in the canonical hyphenated lowercase layout.
pub fn render_uuid(u: u128) -> (s: String)
    ensures
        s@ == uuid_text(u),
{
    let mut digits = String::new();
    push_hex(u, 32, &mut digits);
    proof {
        lemma_hex_text_wf(u as nat, 32);
    }
    let mut out = String::new();
    let mut p: usize = 0;
    while p < 36
        invariant
            0 <= p <= 36,
            digits@ == hex_text(u as nat, 32),
            out@ == uuid_text(u).subrange(0, p as int),
        decreases 36 - p,
    {
        if p == 8 || p == 13 || p == 18 || p == 23 {
            push_char(&mut out, '-');
        } else {
            let g: usize = if p < 8 {
                0
            } else if p < 13 {
                1
            } else if p < 18 {
                2
            } else if p < 23 {
                3
            } else {
                4
            };
            proof {
                lemma_hex_text_wf(u as nat, 32);
                assert(g as int == gaps_before(p as int));
                assert(0 <= (p as int) - (g as int) < 32);
            }
            let c = digits.as_str().get_char(p - g);
            push_char(&mut out, c);
        }
        proof {
            assert(out@ =~= uuid_text(u).subrange(0, p as int + 1));
        }
        p = p + 1;
    }
    proof {
        assert(uuid_text(u).subrange(0, 36) =~= uuid_text(u));
    }
    out
}

/// Parses the canonical hyphenated layout; returns `Some` exactly on strings
/// in that form, with the 128-bit value they write.
pub fn parse_uuid(s: &str) -> (r: Option<u128>)
    ensures
        r is Some <==> is_uuid_text(s@),
        r is Some ==> r->0 as nat == uuid_value(s@),
{
    let n: usize = s.unicode_len();
    if n != 36 {
        return None;
    }
    let mut acc: u128 = 0;
    let mut p: usize = 0;
    while p < 36
        invariant
            0 <= p <= 36,
            s@.len() == 36,
            forall|q: int| 0 <= q < p && is_gap(q) ==> #[trigger] s@[q] == '-',
            forall|q: int| 0 <= q < p && !is_gap(q) ==> is_hex_digit(#[trigger] s@[q]),
            uuid_digit_prefix(s@, p as int).len() == p as int - gaps_before(p as int),
            acc as nat == hex_seq_value(uuid_digit_prefix(s@, p as int)),
        decreases 36 - p,
    {
        let c = s.get_char(p);
        if p == 8 || p == 13 || p == 18 || p == 23 {
            if c != '-' {
                return None;
            }
        } else {
            let d: u8 = match hex_digit_of(c) {
                Some(d) => d,
                None => {
                    return None;
                },
            };
            proof {
                let pre = uuid_digit_prefix(s@, p as int);
                lemma_hex_seq_value_bound(pre);
                assert(gaps_before(p as int) >= 0);
                assert(pre.len() <= 31);
                lemma_pow16_mono(pre.len(), 31);
                lemma_pow16_32();
                assert(pow16(32) == 16 * pow16(31));
                assert((acc as nat) < pow16(31));
                assert((acc as nat) * 16 + 15 < pow16(32)) by (nonlinear_arith)
                    requires
                        (acc as nat) < pow16(31),
                        pow16(32) == 16 * pow16(31),
                ;
            }
            acc = acc * 16 + d as u128;
            proof {
                let pre1 = uuid_digit_prefix(s@, p as int + 1);
                assert(pre1 == uuid_digit_prefix(s@, p as int).push(s@[p as int]));
                assert(pre1.drop_last() =~= uuid_digit_prefix(s@, p as int));
                assert(hex_value(s@[p as int]) == d as nat);
            }
        }
        p = p + 1;
    }
    proof {
        assert(is_uuid_text(s@));
    }
    Some(acc)
}

} // verus!
